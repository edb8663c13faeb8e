//! A chunked translation or summarization run as a sequence of decisions.
//!
//! The caller performs each step's outside work (showing an update, sending
//! a prompt to the model, writing the result to a file) and reports back
//! what happened; the run decides what comes next and what is shown.
use vstd::prelude::*;

use crate::chunking::{spec_chunks, split_text_into_chunks};
use crate::files::{spec_translated_name, translated_file_name};
use crate::prompts::{
    chunk_prompt, format_stream_error, spec_chunk_prompt, spec_formatted_prompt, spec_stream_error,
    Operation,
};
use crate::text::{
    decimal_chars, opt_view, spec_decimal, spec_trim, string_of, string_views, trim_text,
};

verus! {

/// What a run does: stream a translation or summary of text, or translate a
/// file.
#[derive(Clone, Copy, PartialEq, Eq, Structural, Debug)]
pub enum RunKind {
    Text(Operation),
    File,
}

/// What is shown to the user at a step of a run.
pub struct StreamUpdate {
    pub status: String,
    pub output: Option<String>,
    pub progress: Option<String>,
    pub output_path: Option<String>,
    pub error: Option<String>,
    pub completed_chunks: Option<usize>,
}

/// The request settings a run reads.
pub struct RunSettings {
    pub source_lang: Option<String>,
    pub target_lang: String,
    pub provider: String,
    pub base_url: String,
    pub original_file_name: Option<String>,
}

pub open spec fn opt_nat(o: Option<usize>) -> Option<nat> {
    match o {
        Some(n) => Some(n as nat),
        None => None,
    }
}

/// `u` shows exactly these values.
pub open spec fn update_is(
    u: StreamUpdate,
    status: Seq<char>,
    output: Option<Seq<char>>,
    progress: Option<Seq<char>>,
    output_path: Option<Seq<char>>,
    error: Option<Seq<char>>,
    completed: Option<nat>,
) -> bool {
    &&& u.status@ == status
    &&& opt_view(u.output) == output
    &&& opt_view(u.progress) == progress
    &&& opt_view(u.output_path) == output_path
    &&& opt_view(u.error) == error
    &&& opt_nat(u.completed_chunks) == completed
}

/// The output after a chunk completes: the chunk's output and a blank line
/// are appended.
pub open spec fn spec_after_chunk(output: Seq<char>, chunk_output: Seq<char>) -> Seq<char> {
    output + chunk_output + "\n\n"@
}

/// The output after chunks with these outputs complete, in order.
pub open spec fn spec_run_output(prefix: Seq<char>, outs: Seq<Seq<char>>) -> Seq<char>
    decreases outs.len(),
{
    if outs.len() == 0 {
        prefix
    } else {
        spec_after_chunk(spec_run_output(prefix, outs.drop_last()), outs.last())
    }
}

/// "<chunk n> of <total>" progress shown before a chunk is sent.
pub open spec fn spec_chunk_progress(kind: RunKind, n: nat, total: nat) -> Seq<char> {
    let verb = match kind {
        RunKind::Text(Operation::Translate) => "Processing chunk "@,
        RunKind::Text(Operation::Summarize) => "Summarizing chunk "@,
        RunKind::File => "Translating chunk "@,
    };
    verb + spec_decimal(n) + " of "@ + spec_decimal(total) + "..."@
}

/// Progress shown once a chunk completes.
pub open spec fn spec_completed_progress(kind: RunKind, n: nat, total: nat) -> Seq<char> {
    let lead = match kind {
        RunKind::Text(Operation::Summarize) => "Completed summarizing "@,
        _ => "Completed "@,
    };
    lead + spec_decimal(n) + " of "@ + spec_decimal(total) + " chunks."@
}

/// The message shown when a file run is started without content.
pub open spec fn spec_no_file_message() -> Seq<char> {
    "Please upload a file first."@
}

/// The chunk a run starts at: the requested one (or the first), at most the
/// number of chunks.
pub open spec fn spec_start_index(start_chunk: Option<usize>, total: nat) -> nat {
    let s: nat = match start_chunk {
        Some(k) => k as nat,
        None => 0,
    };
    if s < total {
        s
    } else {
        total
    }
}

/// A run in progress.
pub struct ChunkRun {
    kind: RunKind,
    settings: RunSettings,
    chunks: Vec<String>,
    next: usize,
    output: String,
}

impl ChunkRun {
    pub closed spec fn spec_kind(&self) -> RunKind {
        self.kind
    }

    pub closed spec fn spec_settings(&self) -> RunSettings {
        self.settings
    }

    /// The chunks of the text, in order.
    pub closed spec fn spec_chunks(&self) -> Seq<Seq<char>> {
        string_views(self.chunks@)
    }

    /// The index of the next chunk to process.
    pub closed spec fn spec_next(&self) -> nat {
        self.next as nat
    }

    /// The output so far.
    pub closed spec fn spec_output(&self) -> Seq<char> {
        self.output@
    }

    pub closed spec fn wf(&self) -> bool {
        self.next <= self.chunks@.len()
    }

    /// The output so far.
    pub fn output_text(&self) -> (r: String)
        ensures
            r@ == self.spec_output(),
    {
        self.output.clone()
    }

    /// The number of chunks.
    pub fn total_chunks(&self) -> (r: usize)
        ensures
            r == self.spec_chunks().len(),
    {
        self.chunks.len()
    }

    /// The index of the next chunk to process.
    pub fn next_index(&self) -> (r: usize)
        ensures
            r == self.spec_next(),
    {
        self.next
    }
}

/// How a run begins.
pub enum RunStart {
    /// There was nothing to do: show `update`, and the run's result is
    /// `output` (with `output_path`).
    Finished { update: StreamUpdate, output: String, output_path: Option<String> },
    /// The run goes on; show `update` first, if any.
    Running { run: ChunkRun, update: Option<StreamUpdate> },
}

fn decimal(n: usize) -> (r: String)
    ensures
        r@ == spec_decimal(n as nat),
{
    let d = decimal_chars(n as u64);
    string_of(d.as_slice())
}

/// Starts a run over `text`: blank text finishes at once (an empty result
/// for text runs, an error message for file runs); otherwise the text is cut
/// into chunks of at most `chunk_size` characters, and the run starts at
/// `start_chunk` (capped at the number of chunks) with `existing_output` as
/// its output so far.
pub fn start_run(
    kind: RunKind,
    text: &str,
    chunk_size: usize,
    start_chunk: Option<usize>,
    existing_output: Option<String>,
    settings: RunSettings,
) -> (r: RunStart)
    ensures
        spec_trim(text@).len() == 0 ==> match kind {
            RunKind::Text(_) => (r matches RunStart::Finished { update, output, output_path } && {
                &&& update_is(update, "done"@, Some(Seq::<char>::empty()), Some(Seq::<char>::empty()), None, None, None)
                &&& output@ == Seq::<char>::empty()
                &&& output_path is None
            }),
            RunKind::File => (r matches RunStart::Finished { update, output, output_path } && {
                &&& update_is(update, "error"@, Some(spec_no_file_message()), Some("No file content"@), None, Some(spec_no_file_message()), None)
                &&& output@ == spec_no_file_message()
                &&& output_path is None
            }),
        },
        spec_trim(text@).len() != 0 ==> (r matches RunStart::Running { run, update } && {
            let total = spec_chunks(text@, chunk_size as nat).len();
            let prefix = match existing_output {
                Some(e) => e@,
                None => Seq::<char>::empty(),
            };
            &&& run.wf()
            &&& run.spec_kind() == kind
            &&& run.spec_settings() == settings
            &&& run.spec_chunks() == spec_chunks(text@, chunk_size as nat)
            &&& run.spec_next() == spec_start_index(start_chunk, total)
            &&& run.spec_output() == prefix
            &&& match kind {
                RunKind::Text(_) => update is None,
                RunKind::File => update is Some && update_is(
                    update->Some_0,
                    "progress"@,
                    Some(prefix),
                    Some("Starting translation of "@ + spec_decimal(total) + " chunks..."@),
                    None,
                    None,
                    Some(spec_start_index(start_chunk, total)),
                ),
            }
        }),
{
    let trimmed = trim_text(text);
    if trimmed.unicode_len() == 0 {
        match kind {
            RunKind::Text(_) => {
                return RunStart::Finished {
                    update: StreamUpdate {
                        status: String::from_str("done"),
                        output: Some(String::new()),
                        progress: Some(String::new()),
                        output_path: None,
                        error: None,
                        completed_chunks: None,
                    },
                    output: String::new(),
                    output_path: None,
                };
            },
            RunKind::File => {
                let message = String::from_str("Please upload a file first.");
                return RunStart::Finished {
                    update: StreamUpdate {
                        status: String::from_str("error"),
                        output: Some(message.clone()),
                        progress: Some(String::from_str("No file content")),
                        output_path: None,
                        error: Some(message.clone()),
                        completed_chunks: None,
                    },
                    output: message,
                    output_path: None,
                };
            },
        }
    }
    let chunks = split_text_into_chunks(text, chunk_size);
    let total = chunks.len();
    let start = match start_chunk {
        Some(k) => k,
        None => 0,
    };
    let next = if start < total {
        start
    } else {
        total
    };
    let output = match existing_output {
        Some(e) => e,
        None => String::new(),
    };
    let update = match kind {
        RunKind::Text(_) => None,
        RunKind::File => {
            let mut progress = String::from_str("Starting translation of ");
            let d = decimal(total);
            progress.append(d.as_str());
            progress.append(" chunks...");
            Some(
                StreamUpdate {
                    status: String::from_str("progress"),
                    output: Some(output.clone()),
                    progress: Some(progress),
                    output_path: None,
                    error: None,
                    completed_chunks: Some(next),
                },
            )
        },
    };
    RunStart::Running { run: ChunkRun { kind, settings, chunks, next, output }, update }
}

/// The next step of a run.
pub enum RunStep {
    /// The task was asked to stop: forget that request, show `update`, and
    /// end with the output so far.
    Stop { update: StreamUpdate },
    /// Show `update`, then send `prompt` for the next chunk.
    Request { prompt: String, update: StreamUpdate },
    /// All chunks are done: forget any stop request, show `update`, and end
    /// with the output.
    Finish { update: StreamUpdate },
    /// All chunks of a file are done: forget any stop request and save the
    /// output under (a free variant of) `file_name`, then call `saved`.
    Save { file_name: String },
}

pub open spec fn run_source(settings: RunSettings) -> Option<Seq<char>> {
    opt_view(settings.source_lang)
}

pub open spec fn run_operation(kind: RunKind) -> Operation {
    match kind {
        RunKind::Text(op) => op,
        RunKind::File => Operation::Translate,
    }
}

/// The prompt a translating run (a text translation or a file) sends for a
/// chunk names the source language chosen in its settings, or `Auto Detect`
/// when none was chosen; a summarizing run asks for a summary.
pub proof fn lemma_request_prompt(kind: RunKind, settings: RunSettings, chunk: Seq<char>)
    ensures
        run_source(settings) == match settings.source_lang {
            Some(x) => Some(x@),
            None => None,
        },
        kind == RunKind::File || kind == RunKind::Text(Operation::Translate) ==> spec_chunk_prompt(
            run_operation(kind),
            run_source(settings),
            settings.target_lang@,
            chunk,
        ) == spec_formatted_prompt(
            match settings.source_lang {
                Some(x) => x@,
                None => "Auto Detect"@,
            },
            settings.target_lang@,
            chunk,
        ),
        kind == RunKind::Text(Operation::Summarize) ==> run_operation(kind) == Operation::Summarize,
{
}

impl ChunkRun {
    fn progress_text(&self, lead: &str, n: usize, tail: &str) -> (r: String)
        ensures
            r@ == lead@ + spec_decimal(n as nat) + " of "@ + spec_decimal(self.chunks@.len() as nat)
                + tail@,
    {
        let mut p = String::from_str(lead);
        let d = decimal(n);
        p.append(d.as_str());
        p.append(" of ");
        let t = decimal(self.chunks.len());
        p.append(t.as_str());
        p.append(tail);
        p
    }

    /// Decides the next step: when every chunk is done the run finishes (a
    /// file run saves first), whether or not a stop was asked; otherwise a
    /// stop request ends it; otherwise the next chunk's prompt is sent.
    pub fn next_step(&self, cancelled: bool) -> (r: RunStep)
        requires
            self.wf(),
        ensures
            ({
                let s = *self;
                let total = s.spec_chunks().len();
                let n = s.spec_next();
                if n == total {
                    match s.spec_kind() {
                        RunKind::Text(_) => r matches RunStep::Finish { update } && update_is(
                            update,
                            "done"@,
                            Some(s.spec_output()),
                            Some("Done"@),
                            None,
                            None,
                            Some(total),
                        ),
                        RunKind::File => r matches RunStep::Save { file_name } && file_name@
                            == spec_translated_name(opt_view(s.spec_settings().original_file_name)),
                    }
                } else if cancelled {
                    r matches RunStep::Stop { update } && update_is(
                        update,
                        "cancelled"@,
                        Some(s.spec_output()),
                        Some("Cancelled"@),
                        None,
                        None,
                        Some(n),
                    )
                } else {
                    r matches RunStep::Request { prompt, update } && {
                        &&& prompt@ == spec_chunk_prompt(
                            run_operation(s.spec_kind()),
                            run_source(s.spec_settings()),
                            s.spec_settings().target_lang@,
                            s.spec_chunks()[n as int],
                        )
                        &&& update_is(
                            update,
                            "progress"@,
                            Some(s.spec_output()),
                            Some(spec_chunk_progress(s.spec_kind(), n + 1, total)),
                            None,
                            None,
                            None,
                        )
                    }
                }
            }),
    {
        let total = self.chunks.len();
        if self.next == total {
            match self.kind {
                RunKind::Text(_) => {
                    return RunStep::Finish {
                        update: StreamUpdate {
                            status: String::from_str("done"),
                            output: Some(self.output.clone()),
                            progress: Some(String::from_str("Done")),
                            output_path: None,
                            error: None,
                            completed_chunks: Some(total),
                        },
                    };
                },
                RunKind::File => {
                    let name = match &self.settings.original_file_name {
                        Some(n) => translated_file_name(Some(n.as_str())),
                        None => translated_file_name(None),
                    };
                    return RunStep::Save { file_name: name };
                },
            }
        }
        if cancelled {
            return RunStep::Stop {
                update: StreamUpdate {
                    status: String::from_str("cancelled"),
                    output: Some(self.output.clone()),
                    progress: Some(String::from_str("Cancelled")),
                    output_path: None,
                    error: None,
                    completed_chunks: Some(self.next),
                },
            };
        }
        let op = match self.kind {
            RunKind::Text(op) => op,
            RunKind::File => Operation::Translate,
        };
        let source = match &self.settings.source_lang {
            Some(s) => Some(s.as_str()),
            None => None,
        };
        let chunk = &self.chunks[self.next];
        assert(chunk@ == self.spec_chunks()[self.next as int]);
        let prompt = chunk_prompt(op, source, self.settings.target_lang.as_str(), chunk.as_str());
        let lead = match self.kind {
            RunKind::Text(Operation::Translate) => "Processing chunk ",
            RunKind::Text(Operation::Summarize) => "Summarizing chunk ",
            RunKind::File => "Translating chunk ",
        };
        let progress = self.progress_text(lead, self.next + 1, "...");
        RunStep::Request {
            prompt,
            update: StreamUpdate {
                status: String::from_str("progress"),
                output: Some(self.output.clone()),
                progress: Some(progress),
                output_path: None,
                error: None,
                completed_chunks: None,
            },
        }
    }

    /// The chunk being processed failed (its request or its stream): show
    /// the error and end with the output so far. Text runs explain the error
    /// for the provider; file runs show it as it came.
    pub fn on_chunk_error(&self, error: &str) -> (r: StreamUpdate)
        requires
            self.wf(),
            self.spec_next() < self.spec_chunks().len(),
        ensures
            update_is(
                r,
                "error"@,
                Some(self.spec_output()),
                Some("Error on chunk "@ + spec_decimal(self.spec_next() + 1)),
                None,
                Some(
                    match self.spec_kind() {
                        RunKind::Text(op) => spec_stream_error(
                            self.spec_settings().provider@,
                            self.spec_settings().base_url@,
                            op,
                            self.spec_next() + 1,
                            error@,
                        ),
                        RunKind::File => error@,
                    },
                ),
                Some(self.spec_next()),
            ),
    {
        let total = self.chunks.len();
        assert(self.next < total);
        let message = match self.kind {
            RunKind::Text(op) => format_stream_error(
                self.settings.provider.as_str(),
                self.settings.base_url.as_str(),
                op,
                self.next + 1,
                error,
            ),
            RunKind::File => String::from_str(error),
        };
        let mut progress = String::from_str("Error on chunk ");
        let d = decimal(self.next + 1);
        progress.append(d.as_str());
        StreamUpdate {
            status: String::from_str("error"),
            output: Some(self.output.clone()),
            progress: Some(progress),
            output_path: None,
            error: Some(message),
            completed_chunks: Some(self.next),
        }
    }

    /// The chunk being processed completed with `chunk_output`: it is added
    /// to the output with a blank line after it, and the run moves on.
    pub fn on_chunk_done(&mut self, chunk_output: &str) -> (r: StreamUpdate)
        requires
            old(self).wf(),
            old(self).spec_next() < old(self).spec_chunks().len(),
        ensures
            final(self).wf(),
            final(self).spec_output() == spec_after_chunk(old(self).spec_output(), chunk_output@),
            final(self).spec_next() == old(self).spec_next() + 1,
            final(self).spec_chunks() == old(self).spec_chunks(),
            final(self).spec_kind() == old(self).spec_kind(),
            final(self).spec_settings() == old(self).spec_settings(),
            update_is(
                r,
                "output"@,
                Some(final(self).spec_output()),
                Some(
                    spec_completed_progress(
                        old(self).spec_kind(),
                        old(self).spec_next() + 1,
                        old(self).spec_chunks().len(),
                    ),
                ),
                None,
                None,
                None,
            ),
    {
        let total = self.chunks.len();
        assert(self.next < total);
        self.output.append(chunk_output);
        self.output.append("\n\n");
        let lead = match self.kind {
            RunKind::Text(Operation::Summarize) => "Completed summarizing ",
            _ => "Completed ",
        };
        let progress = self.progress_text(lead, self.next + 1, " chunks.");
        self.next = self.next + 1;
        StreamUpdate {
            status: String::from_str("output"),
            output: Some(self.output.clone()),
            progress: Some(progress),
            output_path: None,
            error: None,
            completed_chunks: None,
        }
    }

    /// The task was asked to stop while the chunk streamed: the partial
    /// output is kept, the stop request is to be forgotten, and the run ends.
    pub fn on_chunk_cancelled(&mut self, partial: &str) -> (r: StreamUpdate)
        requires
            old(self).wf(),
            old(self).spec_next() < old(self).spec_chunks().len(),
        ensures
            final(self).wf(),
            final(self).spec_output() == old(self).spec_output() + partial@,
            final(self).spec_next() == old(self).spec_next(),
            final(self).spec_chunks() == old(self).spec_chunks(),
            update_is(
                r,
                "cancelled"@,
                Some(final(self).spec_output()),
                Some("Cancelled"@),
                None,
                None,
                Some(old(self).spec_next()),
            ),
    {
        self.output.append(partial);
        StreamUpdate {
            status: String::from_str("cancelled"),
            output: Some(self.output.clone()),
            progress: Some(String::from_str("Cancelled")),
            output_path: None,
            error: None,
            completed_chunks: Some(self.next),
        }
    }

    /// The output of a finished file run was saved at `output_path`.
    pub fn saved(&self, output_path: String) -> (r: StreamUpdate)
        requires
            self.wf(),
        ensures
            update_is(
                r,
                "done"@,
                Some(self.spec_output()),
                Some("Done"@),
                Some(output_path@),
                None,
                Some(self.spec_chunks().len()),
            ),
    {
        StreamUpdate {
            status: String::from_str("done"),
            output: Some(self.output.clone()),
            progress: Some(String::from_str("Done")),
            output_path: Some(output_path),
            error: None,
            completed_chunks: Some(self.chunks.len()),
        }
    }
}

/// Completing chunks one after another gives the same output as completing
/// them all from the start: a run resumed after the first chunks, with the
/// output they produced, ends with the output of an uninterrupted run.
pub proof fn lemma_resume_matches_uninterrupted(prefix: Seq<char>, done: Seq<Seq<char>>, rest: Seq<Seq<char>>)
    ensures
        spec_run_output(spec_run_output(prefix, done), rest) == spec_run_output(prefix, done + rest),
    decreases rest.len(),
{
    if rest.len() == 0 {
        assert(done + rest =~= done);
    } else {
        lemma_resume_matches_uninterrupted(prefix, done, rest.drop_last());
        assert((done + rest).drop_last() =~= done + rest.drop_last());
        assert((done + rest).last() == rest.last());
    }
}

/// The output of a run only grows: what was there before a chunk completes
/// is a prefix of what is there after.
pub proof fn lemma_output_grows(output: Seq<char>, chunk_output: Seq<char>)
    ensures
        output.is_prefix_of(spec_after_chunk(output, chunk_output)),
{
    assert(spec_after_chunk(output, chunk_output).take(output.len() as int) =~= output);
}

} // verus!
