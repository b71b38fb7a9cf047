//! Properties of processing and output that hold for every collection.
use crate::collector::diagnostic_count;
use crate::cutoff::Config;
use crate::emitter::chunk_of;
use crate::message::{is_diagnostic, is_warning, message_of, MessageView};
use crate::processor::{
    dedup, from_local, has_error, ordered, passes, processed, repeats, reversed, select, truncate,
};
use vstd::prelude::*;

verus! {

/// Whether every message of a sequence satisfies `q`.
pub open spec fn all(s: Seq<MessageView>, q: spec_fn(MessageView) -> bool) -> bool {
    forall|i: int| 0 <= i < s.len() ==> #[trigger] q(s[i])
}

proof fn lemma_push_count(p: Seq<MessageView>, m: MessageView)
    ensures
        diagnostic_count(p.push(m)) == diagnostic_count(p) + if is_diagnostic(m) {
            1nat
        } else {
            0nat
        },
{
    assert(p.push(m).drop_last() =~= p);
}

proof fn lemma_all_push(p: Seq<MessageView>, m: MessageView, q: spec_fn(MessageView) -> bool)
    requires
        all(p, q),
        q(m),
    ensures
        all(p.push(m), q),
{
    assert forall|i: int| 0 <= i < p.push(m).len() implies #[trigger] q(p.push(m)[i]) by {
        if i < p.len() {
            assert(p.push(m)[i] == p[i]);
        }
    }
}

proof fn lemma_all_drop_last(s: Seq<MessageView>, q: spec_fn(MessageView) -> bool)
    requires
        all(s, q),
        s.len() > 0,
    ensures
        all(s.drop_last(), q),
        q(s.last()),
{
    assert forall|i: int| 0 <= i < s.drop_last().len() implies #[trigger] q(s.drop_last()[i]) by {
        assert(s.drop_last()[i] == s[i]);
    }
}

proof fn lemma_select_passes(s: Seq<MessageView>, config: Config, locals: Seq<Seq<char>>, e: bool)
    ensures
        all(select(s, config, locals, e), |m: MessageView| passes(m, config, locals, e)),
    decreases s.len(),
{
    if s.len() > 0 {
        lemma_select_passes(s.drop_last(), config, locals, e);
        if passes(s.last(), config, locals, e) {
            lemma_all_push(
                select(s.drop_last(), config, locals, e),
                s.last(),
                |m: MessageView| passes(m, config, locals, e),
            );
        }
    }
}

proof fn lemma_dedup_within(s: Seq<MessageView>, q: spec_fn(MessageView) -> bool)
    requires
        all(s, q),
    ensures
        all(dedup(s), q),
    decreases s.len(),
{
    if s.len() > 0 {
        lemma_all_drop_last(s, q);
        lemma_dedup_within(s.drop_last(), q);
        if !repeats(s.last(), dedup(s.drop_last())) {
            lemma_all_push(dedup(s.drop_last()), s.last(), q);
        }
    }
}

proof fn lemma_ordered_within(s: Seq<MessageView>, asc: bool, q: spec_fn(MessageView) -> bool)
    requires
        all(s, q),
    ensures
        all(ordered(s, asc), q),
{
    if !asc {
        assert forall|i: int| 0 <= i < reversed(s).len() implies #[trigger] q(reversed(s)[i]) by {
            assert(reversed(s)[i] == s[s.len() - 1 - i]);
        }
    }
}

proof fn lemma_truncate_within(s: Seq<MessageView>, limit: usize, q: spec_fn(MessageView) -> bool)
    requires
        all(s, q),
    ensures
        all(truncate(s, limit), q),
    decreases s.len(),
{
    if s.len() > 0 {
        lemma_all_drop_last(s, q);
        lemma_truncate_within(s.drop_last(), limit, q);
        let p = truncate(s.drop_last(), limit);
        if !(limit > 0 && is_diagnostic(s.last()) && diagnostic_count(p) >= limit) {
            lemma_all_push(p, s.last(), q);
        }
    }
}

/// Every processed message passed dependency filtering and warning suppression.
proof fn lemma_processed_passes(s: Seq<MessageView>, config: Config, locals: Seq<Seq<char>>)
    ensures
        forall|i: int|
            0 <= i < processed(s, config, locals).len() ==> passes(
                #[trigger] processed(s, config, locals)[i],
                config,
                locals,
                has_error(s),
            ),
{
    let q = |m: MessageView| passes(m, config, locals, has_error(s));
    let sel = select(s, config, locals, has_error(s));
    lemma_select_passes(s, config, locals, has_error(s));
    lemma_dedup_within(sel, q);
    lemma_ordered_within(dedup(sel), config.ascending, q);
    lemma_truncate_within(ordered(dedup(sel), config.ascending), config.message_limit, q);
    let out = processed(s, config, locals);
    assert forall|i: int| 0 <= i < out.len() implies passes(
        #[trigger] out[i],
        config,
        locals,
        has_error(s),
    ) by {
        assert(q(out[i]));
    }
}

/// Truncation to a positive limit keeps at most that many diagnostics.
pub proof fn lemma_truncate_bounded(s: Seq<MessageView>, limit: usize)
    requires
        limit > 0,
    ensures
        diagnostic_count(truncate(s, limit)) <= limit,
    decreases s.len(),
{
    if s.len() > 0 {
        lemma_truncate_bounded(s.drop_last(), limit);
        let p = truncate(s.drop_last(), limit);
        lemma_push_count(p, s.last());
    }
}

/// With a positive message limit, processing shows at most that many diagnostics.
pub proof fn lemma_output_within_limit(s: Seq<MessageView>, config: Config, locals: Seq<Seq<char>>)
    requires
        config.message_limit > 0,
    ensures
        diagnostic_count(processed(s, config, locals)) <= config.message_limit,
{
    lemma_truncate_bounded(
        ordered(dedup(select(s, config, locals, has_error(s))), config.ascending),
        config.message_limit,
    );
}

/// Truncation with no limit keeps every message.
pub proof fn lemma_truncate_unlimited(s: Seq<MessageView>)
    ensures
        truncate(s, 0) == s,
    decreases s.len(),
{
    if s.len() > 0 {
        lemma_truncate_unlimited(s.drop_last());
        assert(s.drop_last().push(s.last()) =~= s);
    }
}

/// With no message limit, processing truncates nothing: the output is the
/// filtered, deduplicated and ordered collection whole.
pub proof fn lemma_no_count_truncation(s: Seq<MessageView>, config: Config, locals: Seq<Seq<char>>)
    requires
        config.message_limit == 0,
    ensures
        processed(s, config, locals) == ordered(
            dedup(select(s, config, locals, has_error(s))),
            config.ascending,
        ),
{
    lemma_truncate_unlimited(ordered(dedup(select(s, config, locals, has_error(s))), config.ascending));
}

/// Unless dependency warnings are to be shown, no warning of a package outside
/// `locals` is in the output.
pub proof fn lemma_dependency_warnings_hidden(
    s: Seq<MessageView>,
    config: Config,
    locals: Seq<Seq<char>>,
)
    requires
        !config.show_deps_warnings,
    ensures
        forall|i: int|
            0 <= i < processed(s, config, locals).len() ==> !(is_warning(
                #[trigger] processed(s, config, locals)[i],
            ) && !from_local(processed(s, config, locals)[i], locals)),
{
    lemma_processed_passes(s, config, locals);
    assert forall|i: int| 0 <= i < processed(s, config, locals).len() implies !(is_warning(
        #[trigger] processed(s, config, locals)[i],
    ) && !from_local(processed(s, config, locals)[i], locals)) by {
        assert(passes(processed(s, config, locals)[i], config, locals, has_error(s)));
    }
}

proof fn lemma_select_all(s: Seq<MessageView>, config: Config, locals: Seq<Seq<char>>, e: bool)
    requires
        config.show_deps_warnings,
        config.force_warn,
    ensures
        select(s, config, locals, e) == s,
    decreases s.len(),
{
    if s.len() > 0 {
        lemma_select_all(s.drop_last(), config, locals, e);
        assert(s.drop_last().push(s.last()) =~= s);
    }
}

/// With dependency warnings shown and warnings forced, no message is filtered
/// out: the output is the whole collection, deduplicated, ordered and truncated.
pub proof fn lemma_dependency_warnings_shown(
    s: Seq<MessageView>,
    config: Config,
    locals: Seq<Seq<char>>,
)
    requires
        config.show_deps_warnings,
        config.force_warn,
    ensures
        processed(s, config, locals) == truncate(
            ordered(dedup(s), config.ascending),
            config.message_limit,
        ),
{
    lemma_select_all(s, config, locals, has_error(s));
}

/// Unless warnings are forced, a collection with an error shows no warning.
pub proof fn lemma_errors_hide_warnings(s: Seq<MessageView>, config: Config, locals: Seq<Seq<char>>)
    requires
        !config.force_warn,
        has_error(s),
    ensures
        forall|i: int|
            0 <= i < processed(s, config, locals).len() ==> !is_warning(
                #[trigger] processed(s, config, locals)[i],
            ),
{
    lemma_processed_passes(s, config, locals);
    assert forall|i: int| 0 <= i < processed(s, config, locals).len() implies !is_warning(
        #[trigger] processed(s, config, locals)[i],
    ) by {
        assert(passes(processed(s, config, locals)[i], config, locals, has_error(s)));
    }
}

proof fn lemma_select_ignores_errors(s: Seq<MessageView>, config: Config, locals: Seq<Seq<char>>)
    requires
        config.force_warn,
    ensures
        select(s, config, locals, true) == select(s, config, locals, false),
    decreases s.len(),
{
    if s.len() > 0 {
        lemma_select_ignores_errors(s.drop_last(), config, locals);
    }
}

/// With warnings forced, errors change nothing in what is kept: the output is
/// that of the same collection as if it held no error.
pub proof fn lemma_forced_warnings_kept(s: Seq<MessageView>, config: Config, locals: Seq<Seq<char>>)
    requires
        config.force_warn,
    ensures
        processed(s, config, locals) == truncate(
            ordered(dedup(select(s, config, locals, false)), config.ascending),
            config.message_limit,
        ),
{
    lemma_select_ignores_errors(s, config, locals);
}

/// In structured mode the record written for a collected line is that line,
/// and it classifies back to the same message.
pub proof fn lemma_record_round_trip(line: Seq<char>)
    ensures
        chunk_of(message_of(line), true) == Some((line, true)),
        message_of(chunk_of(message_of(line), true).unwrap().0) == message_of(line),
{
}

proof fn lemma_contains_step(s: Seq<MessageView>, m: MessageView)
    requires
        s.contains(m),
        s.len() > 0,
        s.last() != m,
    ensures
        s.drop_last().contains(m),
{
    let i = choose|i: int| 0 <= i < s.len() && s[i] == m;
    assert(s.drop_last()[i] == m);
}

proof fn lemma_contains_push(p: Seq<MessageView>, x: MessageView, m: MessageView)
    requires
        p.contains(m) || x == m,
    ensures
        p.push(x).contains(m),
{
    if x == m {
        assert(p.push(x)[p.len() as int] == m);
    } else {
        let i = choose|i: int| 0 <= i < p.len() && p[i] == m;
        assert(p.push(x)[i] == m);
    }
}

proof fn lemma_select_keeps_plain(
    s: Seq<MessageView>,
    config: Config,
    locals: Seq<Seq<char>>,
    e: bool,
    m: MessageView,
)
    requires
        s.contains(m),
        !is_diagnostic(m),
    ensures
        select(s, config, locals, e).contains(m),
    decreases s.len(),
{
    let p = select(s.drop_last(), config, locals, e);
    if s.last() == m {
        lemma_contains_push(p, m, m);
    } else {
        lemma_contains_step(s, m);
        lemma_select_keeps_plain(s.drop_last(), config, locals, e, m);
        if passes(s.last(), config, locals, e) {
            lemma_contains_push(p, s.last(), m);
        }
    }
}

proof fn lemma_dedup_keeps_plain(s: Seq<MessageView>, m: MessageView)
    requires
        s.contains(m),
        !is_diagnostic(m),
    ensures
        dedup(s).contains(m),
    decreases s.len(),
{
    let p = dedup(s.drop_last());
    if s.last() == m {
        assert(!repeats(m, p));
        lemma_contains_push(p, m, m);
    } else {
        lemma_contains_step(s, m);
        lemma_dedup_keeps_plain(s.drop_last(), m);
        if !repeats(s.last(), p) {
            lemma_contains_push(p, s.last(), m);
        }
    }
}

proof fn lemma_ordered_keeps(s: Seq<MessageView>, asc: bool, m: MessageView)
    requires
        s.contains(m),
    ensures
        ordered(s, asc).contains(m),
{
    if !asc {
        let i = choose|i: int| 0 <= i < s.len() && s[i] == m;
        assert(reversed(s)[s.len() - 1 - i] == m);
    }
}

proof fn lemma_truncate_keeps_plain(s: Seq<MessageView>, limit: usize, m: MessageView)
    requires
        s.contains(m),
        !is_diagnostic(m),
    ensures
        truncate(s, limit).contains(m),
    decreases s.len(),
{
    let p = truncate(s.drop_last(), limit);
    if s.last() == m {
        lemma_contains_push(p, m, m);
    } else {
        lemma_contains_step(s, m);
        lemma_truncate_keeps_plain(s.drop_last(), limit, m);
        if !(limit > 0 && is_diagnostic(s.last()) && diagnostic_count(p) >= limit) {
            lemma_contains_push(p, s.last(), m);
        }
    }
}

/// Processing never drops a message that is no diagnostic: unrecognized
/// lines, artifacts and the end of the build all reach the output.
pub proof fn lemma_plain_messages_kept(
    s: Seq<MessageView>,
    config: Config,
    locals: Seq<Seq<char>>,
    i: int,
)
    requires
        0 <= i < s.len(),
        !is_diagnostic(s[i]),
    ensures
        processed(s, config, locals).contains(s[i]),
{
    let m = s[i];
    let sel = select(s, config, locals, has_error(s));
    lemma_select_keeps_plain(s, config, locals, has_error(s), m);
    lemma_dedup_keeps_plain(sel, m);
    lemma_ordered_keeps(dedup(sel), config.ascending, m);
    lemma_truncate_keeps_plain(ordered(dedup(sel), config.ascending), config.message_limit, m);
}

} // verus!
