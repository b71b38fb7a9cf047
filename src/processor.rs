//! The processing of collected messages: dependency filtering, suppression of
//! warnings beside errors, deduplication, ordering and truncation.
use crate::collector::{diagnostic_count, views};
use crate::cutoff::Config;
use crate::message::{
    is_diagnostic, is_error, is_warning, Diagnostic, KindView, Level, Message, MessageKind,
    MessageView, SpanKey,
};
use vstd::prelude::*;

verus! {

/// Whether a message is a diagnostic of one of the packages under build.
pub open spec fn from_local(m: MessageView, locals: Seq<Seq<char>>) -> bool {
    match m.kind {
        KindView::CompilerMessage(d) => locals.contains(d.package_id),
        _ => false,
    }
}

/// Whether a sequence holds an error.
pub open spec fn has_error(s: Seq<MessageView>) -> bool {
    exists|i: int| 0 <= i < s.len() && #[trigger] is_error(s[i])
}

/// Whether a message survives dependency filtering and warning suppression.
pub open spec fn passes(m: MessageView, config: Config, locals: Seq<Seq<char>>, any_error: bool) -> bool {
    &&& !(!config.show_deps_warnings && is_warning(m) && !from_local(m, locals))
    &&& !(!config.force_warn && any_error && is_warning(m))
}

/// The messages that pass, in their order.
pub open spec fn select(
    s: Seq<MessageView>,
    config: Config,
    locals: Seq<Seq<char>>,
    any_error: bool,
) -> Seq<MessageView>
    decreases s.len(),
{
    if s.len() == 0 {
        s
    } else {
        let p = select(s.drop_last(), config, locals, any_error);
        if passes(s.last(), config, locals, any_error) {
            p.push(s.last())
        } else {
            p
        }
    }
}

/// Two diagnostics with the same severity, rendered text and span.
pub open spec fn same_diagnostic(a: MessageView, b: MessageView) -> bool {
    match (a.kind, b.kind) {
        (KindView::CompilerMessage(x), KindView::CompilerMessage(y)) => x.level == y.level
            && x.rendered == y.rendered && x.span == y.span,
        _ => false,
    }
}

/// Whether a sequence holds a diagnostic the same as `m`.
pub open spec fn repeats(m: MessageView, p: Seq<MessageView>) -> bool {
    exists|k: int| 0 <= k < p.len() && #[trigger] same_diagnostic(p[k], m)
}

/// Each diagnostic at its first occurrence only; other messages all kept.
pub open spec fn dedup(s: Seq<MessageView>) -> Seq<MessageView>
    decreases s.len(),
{
    if s.len() == 0 {
        s
    } else {
        let p = dedup(s.drop_last());
        if repeats(s.last(), p) {
            p
        } else {
            p.push(s.last())
        }
    }
}

pub open spec fn reversed(s: Seq<MessageView>) -> Seq<MessageView> {
    Seq::new(s.len(), |i: int| s[s.len() - 1 - i])
}

/// Arrival order when ascending, the reverse otherwise.
pub open spec fn ordered(s: Seq<MessageView>, ascending: bool) -> Seq<MessageView> {
    if ascending {
        s
    } else {
        reversed(s)
    }
}

/// The first `limit` diagnostics and every other message; all of them when
/// `limit` is 0.
pub open spec fn truncate(s: Seq<MessageView>, limit: usize) -> Seq<MessageView>
    decreases s.len(),
{
    if s.len() == 0 {
        s
    } else {
        let p = truncate(s.drop_last(), limit);
        if limit > 0 && is_diagnostic(s.last()) && diagnostic_count(p) >= limit {
            p
        } else {
            p.push(s.last())
        }
    }
}

/// The output of processing a collection.
pub open spec fn processed(
    s: Seq<MessageView>,
    config: Config,
    locals: Seq<Seq<char>>,
) -> Seq<MessageView> {
    truncate(
        ordered(dedup(select(s, config, locals, has_error(s))), config.ascending),
        config.message_limit,
    )
}

pub open spec fn text_views(v: Seq<String>) -> Seq<Seq<char>> {
    v.map_values(|s: String| s@)
}

fn copy_text(o: &Option<String>) -> (r: Option<String>)
    ensures
        crate::message::opt_text(r) == crate::message::opt_text(*o),
{
    match o {
        Some(s) => Some(s.clone()),
        None => None,
    }
}

impl SpanKey {
    pub fn duplicate(&self) -> (r: SpanKey)
        ensures
            r@ == self@,
    {
        SpanKey { file: self.file.clone(), line: self.line, column: self.column }
    }
}

impl Diagnostic {
    pub fn duplicate(&self) -> (r: Diagnostic)
        ensures
            r@ == self@,
    {
        let span = match &self.span {
            Some(k) => Some(k.duplicate()),
            None => None,
        };
        Diagnostic {
            level: self.level,
            rendered: copy_text(&self.rendered),
            package_id: self.package_id.clone(),
            span,
        }
    }
}

impl Message {
    pub fn duplicate(&self) -> (r: Message)
        ensures
            r@ == self@,
    {
        let kind = match &self.kind {
            MessageKind::CompilerMessage(d) => MessageKind::CompilerMessage(d.duplicate()),
            MessageKind::CompilerArtifact => MessageKind::CompilerArtifact,
            MessageKind::BuildScriptExecuted => MessageKind::BuildScriptExecuted,
            MessageKind::BuildFinished(b) => MessageKind::BuildFinished(*b),
            MessageKind::Unrecognized => MessageKind::Unrecognized,
        };
        Message { line: self.line.clone(), kind }
    }
}

fn same_text(a: &Option<String>, b: &Option<String>) -> (r: bool)
    ensures
        r == (crate::message::opt_text(*a) == crate::message::opt_text(*b)),
{
    match a {
        Some(x) => match b {
            Some(y) => {
                let e = x.eq(y);
                assert(e == (x@ == y@));
                e
            },
            None => false,
        },
        None => b.is_none(),
    }
}

fn same_span(a: &Option<SpanKey>, b: &Option<SpanKey>) -> (r: bool)
    ensures
        r == (crate::message::opt_span(*a) == crate::message::opt_span(*b)),
{
    match (a, b) {
        (Some(x), Some(y)) => x.line == y.line && x.column == y.column && x.file == y.file,
        (None, None) => true,
        _ => false,
    }
}

fn same_message(a: &Message, b: &Message) -> (r: bool)
    ensures
        r == same_diagnostic(a@, b@),
{
    match (&a.kind, &b.kind) {
        (MessageKind::CompilerMessage(x), MessageKind::CompilerMessage(y)) => x.level == y.level
            && same_text(&x.rendered, &y.rendered) && same_span(&x.span, &y.span),
        _ => false,
    }
}

proof fn lemma_views_push(v: Seq<Message>, m: Message)
    ensures
        views(v.push(m)) == views(v).push(m@),
{
    assert(views(v.push(m)) =~= views(v).push(m@));
}

proof fn lemma_take_step(s: Seq<MessageView>, i: int)
    requires
        0 <= i < s.len(),
    ensures
        s.take(i + 1).drop_last() == s.take(i),
        s.take(i + 1).last() == s[i],
        s.take(i + 1).len() > 0,
{
    assert(s.take(i + 1).drop_last() =~= s.take(i));
}

/// Whether a message comes from one of the local packages.
fn is_from_local(m: &Message, locals: &Vec<String>) -> (r: bool)
    ensures
        r == from_local(m@, text_views(locals@)),
{
    match &m.kind {
        MessageKind::CompilerMessage(d) => {
            let mut i: usize = 0;
            while i < locals.len()
                invariant
                    i <= locals@.len(),
                    m@.kind == KindView::CompilerMessage(d@),
                    forall|k: int| 0 <= k < i ==> locals@[k]@ != d.package_id@,
                decreases locals@.len() - i,
            {
                let e = locals[i].eq(&d.package_id);
                assert(e == (locals@[i as int]@ == d.package_id@));
                if e {
                    proof {
                        let t = text_views(locals@);
                        assert(t[i as int] == d.package_id@);
                        assert(t.contains(d.package_id@));
                    }
                    return true;
                }
                i = i + 1;
            }
            assert(!text_views(locals@).contains(d.package_id@));
            false
        },
        _ => false,
    }
}

/// Whether the messages hold an error.
pub fn contains_error(messages: &Vec<Message>) -> (r: bool)
    ensures
        r == has_error(views(messages@)),
{
    let ghost s = views(messages@);
    let mut i: usize = 0;
    while i < messages.len()
        invariant
            i <= messages@.len(),
            s == views(messages@),
            forall|k: int| 0 <= k < i ==> !is_error(#[trigger] s[k]),
        decreases messages@.len() - i,
    {
        let e = match &messages[i].kind {
            MessageKind::CompilerMessage(d) => d.level == Level::Error,
            _ => false,
        };
        if e {
            assert(is_error(s[i as int]));
            return true;
        }
        i = i + 1;
    }
    false
}

fn select_messages(
    messages: &Vec<Message>,
    config: &Config,
    locals: &Vec<String>,
    any_error: bool,
) -> (r: Vec<Message>)
    ensures
        views(r@) == select(views(messages@), *config, text_views(locals@), any_error),
{
    let ghost s = views(messages@);
    let mut out: Vec<Message> = Vec::new();
    let mut i: usize = 0;
    while i < messages.len()
        invariant
            i <= messages@.len(),
            s == views(messages@),
            views(out@) == select(s.take(i as int), *config, text_views(locals@), any_error),
        decreases messages@.len() - i,
    {
        proof {
            lemma_take_step(s, i as int);
        }
        let m = &messages[i];
        let warning = match &m.kind {
            MessageKind::CompilerMessage(d) => d.level == Level::Warning,
            _ => false,
        };
        let dropped_dep = !config.show_deps_warnings && warning && !is_from_local(m, locals);
        let dropped_forced = !config.force_warn && any_error && warning;
        if !dropped_dep && !dropped_forced {
            let c = m.duplicate();
            proof {
                lemma_views_push(out@, c);
            }
            out.push(c);
        }
        i = i + 1;
    }
    assert(s.take(messages@.len() as int) =~= s);
    out
}

fn dedup_messages(messages: &Vec<Message>) -> (r: Vec<Message>)
    ensures
        views(r@) == dedup(views(messages@)),
{
    let ghost s = views(messages@);
    let mut out: Vec<Message> = Vec::new();
    let mut i: usize = 0;
    while i < messages.len()
        invariant
            i <= messages@.len(),
            s == views(messages@),
            views(out@) == dedup(s.take(i as int)),
        decreases messages@.len() - i,
    {
        proof {
            lemma_take_step(s, i as int);
        }
        let m = &messages[i];
        let ghost p = views(out@);
        let mut found = false;
        let mut j: usize = 0;
        while j < out.len()
            invariant
                j <= out@.len(),
                p == views(out@),
                !found ==> forall|k: int| 0 <= k < j ==> !same_diagnostic(#[trigger] p[k], m@),
                found ==> repeats(m@, p),
            decreases out@.len() - j,
        {
            if same_message(&out[j], m) {
                assert(same_diagnostic(p[j as int], m@));
                found = true;
            }
            j = j + 1;
        }
        if !found {
            let c = m.duplicate();
            proof {
                lemma_views_push(out@, c);
            }
            out.push(c);
        }
        i = i + 1;
    }
    assert(s.take(messages@.len() as int) =~= s);
    out
}

fn order_messages(messages: &Vec<Message>, ascending: bool) -> (r: Vec<Message>)
    ensures
        views(r@) == ordered(views(messages@), ascending),
{
    let ghost s = views(messages@);
    let mut out: Vec<Message> = Vec::new();
    let n = messages.len();
    let mut i: usize = 0;
    while i < n
        invariant
            n == messages@.len(),
            i <= n,
            s == views(messages@),
            views(out@) =~= if ascending {
                s.take(i as int)
            } else {
                reversed(s).take(i as int)
            },
        decreases n - i,
    {
        let idx = if ascending { i } else { n - 1 - i };
        let c = messages[idx].duplicate();
        proof {
            lemma_views_push(out@, c);
        }
        out.push(c);
        i = i + 1;
    }
    assert(s.take(n as int) =~= s);
    assert(reversed(s).take(n as int) =~= reversed(s));
    out
}

fn truncate_messages(messages: &Vec<Message>, limit: usize) -> (r: Vec<Message>)
    ensures
        views(r@) == truncate(views(messages@), limit),
{
    let ghost s = views(messages@);
    let mut out: Vec<Message> = Vec::new();
    let mut count: usize = 0;
    let mut i: usize = 0;
    while i < messages.len()
        invariant
            i <= messages@.len(),
            s == views(messages@),
            views(out@) == truncate(s.take(i as int), limit),
            count == diagnostic_count(views(out@)),
            count <= out@.len(),
            out@.len() <= i,
        decreases messages@.len() - i,
    {
        proof {
            lemma_take_step(s, i as int);
        }
        let m = &messages[i];
        let diag = match &m.kind {
            MessageKind::CompilerMessage(_) => true,
            _ => false,
        };
        if !(limit > 0 && diag && count >= limit) {
            let c = m.duplicate();
            proof {
                lemma_views_push(out@, c);
                assert(views(out@).push(c@).drop_last() =~= views(out@));
            }
            out.push(c);
            if diag {
                count = count + 1;
            }
        }
        i = i + 1;
    }
    assert(s.take(messages@.len() as int) =~= s);
    out
}

/// Processes a collection: drops warnings of packages outside `locals` unless
/// they are to be shown, drops all warnings beside an error unless forced,
/// keeps the first of equal diagnostics, orders and truncates.
pub fn process_messages(messages: &Vec<Message>, config: &Config, locals: &Vec<String>) -> (r: Vec<
    Message,
>)
    ensures
        views(r@) == processed(views(messages@), *config, text_views(locals@)),
{
    let any_error = contains_error(messages);
    let selected = select_messages(messages, config, locals, any_error);
    let unique = dedup_messages(&selected);
    let arranged = order_messages(&unique, config.ascending);
    truncate_messages(&arranged, config.message_limit)
}

} // verus!
