//! What is written out for processed messages, and the exit status reported.
use crate::collector::views;
use crate::cutoff::Config;
use crate::processor::{process_messages, processed, text_views};
use crate::message::{KindView, Message, MessageKind, MessageView};
use vstd::prelude::*;

verus! {

/// A piece of output: its text, and whether a line break follows it.
#[derive(Debug)]
pub struct Chunk {
    pub text: String,
    pub newline: bool,
}

impl View for Chunk {
    type V = (Seq<char>, bool);

    open spec fn view(&self) -> (Seq<char>, bool) {
        (self.text@, self.newline)
    }
}

/// What one message shows as: in structured mode its record, one per line; in
/// text mode a diagnostic's rendered text, and an unrecognized line as it came.
pub open spec fn chunk_of(m: MessageView, json: bool) -> Option<(Seq<char>, bool)> {
    if json {
        Some((m.line, true))
    } else {
        match m.kind {
            KindView::CompilerMessage(d) => match d.rendered {
                Some(t) => Some((t, false)),
                None => None,
            },
            KindView::Unrecognized => Some((m.line, true)),
            _ => None,
        }
    }
}

/// The output of a sequence of messages, in their order.
pub open spec fn emitted(s: Seq<MessageView>, json: bool) -> Seq<(Seq<char>, bool)>
    decreases s.len(),
{
    if s.len() == 0 {
        Seq::empty()
    } else {
        let p = emitted(s.drop_last(), json);
        match chunk_of(s.last(), json) {
            Some(c) => p.push(c),
            None => p,
        }
    }
}

pub open spec fn chunk_views(v: Seq<Chunk>) -> Seq<(Seq<char>, bool)> {
    v.map_values(|c: Chunk| c@)
}

/// The chunks that show processed messages, in order.
pub fn render(messages: &Vec<Message>, json: bool) -> (r: Vec<Chunk>)
    ensures
        chunk_views(r@) == emitted(views(messages@), json),
{
    let ghost s = views(messages@);
    let mut out: Vec<Chunk> = Vec::new();
    let mut i: usize = 0;
    while i < messages.len()
        invariant
            i <= messages@.len(),
            s == views(messages@),
            chunk_views(out@) == emitted(s.take(i as int), json),
        decreases messages@.len() - i,
    {
        assert(s.take(i + 1).drop_last() =~= s.take(i as int));
        let m = &messages[i];
        let c: Option<Chunk> = if json {
            Some(Chunk { text: m.line.clone(), newline: true })
        } else {
            match &m.kind {
                MessageKind::CompilerMessage(d) => match &d.rendered {
                    Some(t) => Some(Chunk { text: t.clone(), newline: false }),
                    None => None,
                },
                MessageKind::Unrecognized => Some(Chunk { text: m.line.clone(), newline: true }),
                _ => None,
            }
        };
        match c {
            Some(c) => {
                assert(chunk_views(out@.push(c)) =~= chunk_views(out@).push(c@));
                out.push(c);
            },
            None => {},
        }
        i = i + 1;
    }
    assert(s.take(messages@.len() as int) =~= s);
    out
}

/// Processes a finished collection and renders what is to be shown of it.
/// `locals` are the identifiers of the packages under build.
pub fn output_of(messages: &Vec<Message>, config: &Config, locals: &Vec<String>) -> (r: Vec<Chunk>)
    ensures
        chunk_views(r@) == emitted(
            processed(views(messages@), *config, text_views(locals@)),
            config.json_output,
        ),
{
    let shown = process_messages(messages, config, locals);
    render(&shown, config.json_output)
}

/// Exit status reported when the child's own cannot be known.
pub const NO_EXIT_CODE: i32 = 127;

/// The exit status to report: the child's own, or the fixed fallback.
pub fn exit_code(code: Option<i32>) -> (r: i32)
    ensures
        r == match code {
            Some(c) => c,
            None => NO_EXIT_CODE,
        },
{
    match code {
        Some(c) => c,
        None => NO_EXIT_CODE,
    }
}

} // verus!
