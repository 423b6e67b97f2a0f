//! Instantiation discovery: scanning IR text for mentions of bindable
//! structures and resolving them, recursively for nested structure
//! parameters, into specifications.

use vstd::prelude::*;
use crate::backend::sdsl_c::specification::{
    self, Specification, SpecificationModel, spec_from_default, spec_from_parameterized,
};
use crate::meta::common::{
    BuildError, Meta, MetaKind, MetaModel, ParameterModel, params_of, spec_path,
};
use crate::text::{self, occurs_at, trim_seq, trimmed_substring};

verus! {

/// The textual intermediate representation of the consuming program.
pub struct CodeMeta {
    pub mir: String,
}

/// How deep nested structure parameters may recurse before resolution is
/// abandoned.
pub const MAX_NESTING_DEPTH: u64 = 16;

/// A decimal digit.
pub open spec fn is_digit(c: char) -> bool {
    '0' <= c && c <= '9'
}

/// The end of the run of digits in `s` that starts at `k`.
pub open spec fn leading_digits_end(s: Seq<char>, k: int) -> int
    decreases s.len() - k,
{
    if 0 <= k < s.len() && is_digit(s[k]) {
        leading_digits_end(s, k + 1)
    } else {
        k
    }
}

/// The value of an integer-literal argument: its leading digits, which
/// must be non-empty and followed by an underscore and an arbitrary type
/// suffix.
pub open spec fn int_segment_value(s: Seq<char>) -> Option<Seq<char>> {
    let e = leading_digits_end(s, 0);
    if s.len() > 0 && is_digit(s[0]) && e < s.len() && s[e] == '_' {
        Some(s.take(e))
    } else {
        None
    }
}

/// A nested-structure argument starts with the library's namespace.
pub open spec fn sdsl_segment_ok(s: Seq<char>) -> bool {
    s.len() >= 6 && s.subrange(0, 6) == "sdsl::"@
}

/// The value a trimmed argument segment contributes to the parameter slot
/// `p`, or `None` when the segment does not fit the slot.
pub open spec fn segment_value(p: ParameterModel, s: Seq<char>) -> Option<Seq<char>> {
    if p.is_sdsl_type {
        if sdsl_segment_ok(s) {
            Some(s)
        } else {
            None
        }
    } else {
        int_segment_value(s)
    }
}

/// Whether a mention that supplies the first `k` of the declared
/// parameters is accepted: either every parameter is supplied, or the
/// elided suffix consists entirely of defaulted parameters.
pub open spec fn accepts_count(params: Seq<ParameterModel>, k: int) -> bool {
    k == params.len() || (1 <= k < params.len() && forall|j: int|
        k <= j < params.len() ==> (#[trigger] params[j]).has_default)
}

/// Scan the argument region of a mention, starting inside the angle
/// brackets: collect the spans between top-level commas, tracking bracket
/// depth, until the closing bracket of the mention. `None` when the text
/// ends, or a semicolon or line break intervenes, before the region
/// closes.
pub open spec fn arg_bounds(
    t: Seq<char>,
    i: int,
    depth: int,
    start: int,
    acc: Seq<(int, int)>,
) -> Option<(Seq<(int, int)>, int)>
    decreases t.len() - i,
{
    if i < 0 || i >= t.len() {
        None
    } else if t[i] == ';' || t[i] == '\n' {
        None
    } else if t[i] == '<' {
        arg_bounds(t, i + 1, depth + 1, start, acc)
    } else if t[i] == '>' {
        if depth == 0 {
            Some((acc.push((start, i)), i + 1))
        } else {
            arg_bounds(t, i + 1, depth - 1, start, acc)
        }
    } else if t[i] == ',' && depth == 0 {
        arg_bounds(t, i + 1, 0, i + 1, acc.push((start, i)))
    } else {
        arg_bounds(t, i + 1, depth, start, acc)
    }
}

/// Bounds returned by the argument scan lie within the text, after the
/// scan's start.
pub proof fn lemma_arg_bounds_range(
    t: Seq<char>,
    i: int,
    depth: int,
    start: int,
    acc: Seq<(int, int)>,
)
    requires
        0 <= start <= i,
        forall|k: int| 0 <= k < acc.len() ==> 0 <= (#[trigger] acc[k]).0 <= acc[k].1 <= i,
    ensures
        match arg_bounds(t, i, depth, start, acc) {
            Some((spans, end)) => i < end <= t.len() && forall|k: int|
                0 <= k < spans.len() ==> 0 <= (#[trigger] spans[k]).0 <= spans[k].1 < end,
            None => true,
        },
    decreases t.len() - i,
{
    if 0 <= i < t.len() && t[i] != ';' && t[i] != '\n' {
        if t[i] == '<' {
            lemma_arg_bounds_range(t, i + 1, depth + 1, start, acc);
        } else if t[i] == '>' {
            if depth != 0 {
                lemma_arg_bounds_range(t, i + 1, depth - 1, start, acc);
            }
        } else if t[i] == ',' && depth == 0 {
            lemma_arg_bounds_range(t, i + 1, 0, i + 1, acc.push((start, i)));
        } else {
            lemma_arg_bounds_range(t, i + 1, depth, start, acc);
        }
    }
}

/// A parameterized mention of `path` anchored at `i`: a reference or
/// whitespace prefix, the path, an angle-bracketed argument region, and a
/// terminating semicolon. Yields the trimmed argument segments and the
/// position just past the mention.
pub open spec fn mention_at(t: Seq<char>, path: Seq<char>, i: int) -> Option<(
    Seq<Seq<char>>,
    int,
)> {
    if i >= 1 && (t[i - 1] == ' ' || t[i - 1] == '&') && occurs_at(t, path.push('<'), i) {
        let e = i + path.len() + 1;
        match arg_bounds(t, e, 0, e, seq![]) {
            Some((spans, j)) => if j < t.len() && t[j] == ';' {
                Some(
                    (
                        spans.map_values(|sp: (int, int)| trim_seq(t.subrange(sp.0, sp.1))),
                        j + 1,
                    ),
                )
            } else {
                None
            },
            None => None,
        }
    } else {
        None
    }
}

/// Every parameterized mention of `path` in `t` at or after position `i`,
/// in textual order: the trimmed argument segments of each.
pub open spec fn spec_scan(t: Seq<char>, path: Seq<char>, i: int) -> Seq<Seq<Seq<char>>>
    decreases t.len() - i,
{
    if i < 0 || i >= t.len() {
        seq![]
    } else {
        let here = match mention_at(t, path, i) {
            Some((segs, _)) => seq![segs],
            None => seq![],
        };
        here + spec_scan(t, path, i + 1)
    }
}

/// A bare mention of `path` at `i`: a reference or whitespace prefix, the
/// path, and a terminating semicolon with no parameter list.
pub open spec fn bare_mention_at(t: Seq<char>, path: Seq<char>, i: int) -> bool {
    i >= 1 && (t[i - 1] == ' ' || t[i - 1] == '&') && occurs_at(t, path.push(';'), i)
}

/// Whether `t` mentions `path` bare, anywhere.
pub open spec fn has_bare_mention(t: Seq<char>, path: Seq<char>) -> bool {
    exists|i: int| bare_mention_at(t, path, i)
}

/// A mention whose segments are accepted and valid resolves as its
/// parameter resolution and assembly dictate.
pub proof fn lemma_outcome_resolved(m: MetaModel, segs: Seq<Seq<char>>, fuel: nat)
    requires
        accepts_count(params_of(m.kind), segs.len() as int),
        !(exists|j: int|
            0 <= j < segs.len() && segment_value(
                #[trigger] params_of(m.kind)[j],
                segs[j],
            ) is None),
    ensures
        match spec_resolve_params(m, segs, 0, fuel) {
            None => spec_mention_outcome(m, segs, fuel) is Error,
            Some(ps) => match spec_from_parameterized(m, ps) {
                None => spec_mention_outcome(m, segs, fuel) is Error,
                Some(s) => spec_mention_outcome(m, segs, fuel) == MentionOutcome::Found(s),
            },
        },
{
}

/// A mention whose segments are not accepted, or hold an ill-formed value,
/// is skipped.
pub proof fn lemma_outcome_skip(m: MetaModel, segs: Seq<Seq<char>>, fuel: nat)
    requires
        !(accepts_count(params_of(m.kind), segs.len() as int) && !(exists|j: int|
            0 <= j < segs.len() && segment_value(
                #[trigger] params_of(m.kind)[j],
                segs[j],
            ) is None)),
    ensures
        spec_mention_outcome(m, segs, fuel) is Skip,
{
}

/// Unfolding one step of the mention walk.
pub proof fn lemma_mentions_step(
    t: Seq<char>,
    m: MetaModel,
    mentions: Seq<Seq<Seq<char>>>,
    idx: int,
    fuel: nat,
)
    requires
        0 <= idx < mentions.len(),
    ensures
        match spec_mention_outcome(m, mentions[idx], fuel) {
            MentionOutcome::Error => spec_mentions_specs(t, m, mentions, idx, fuel) is None,
            MentionOutcome::Skip => spec_mentions_specs(t, m, mentions, idx, fuel)
                == spec_mentions_specs(t, m, mentions, idx + 1, fuel),
            MentionOutcome::Found(s) => spec_mentions_specs(t, m, mentions, idx, fuel)
                == prepend_specs(seq![s], spec_mentions_specs(t, m, mentions, idx + 1, fuel)),
        },
{
}

/// Unfolding one step of the registry walk.
pub proof fn lemma_analyse_metas_step(t: Seq<char>, ms: Seq<MetaModel>, idx: int, fuel: nat)
    requires
        0 <= idx < ms.len(),
    ensures
        match spec_meta_specs(t, ms[idx], fuel) {
            None => spec_analyse_metas(t, ms, idx, fuel) is None,
            Some(b) => spec_analyse_metas(t, ms, idx, fuel) == prepend_specs(
                b,
                spec_analyse_metas(t, ms, idx + 1, fuel),
            ),
        },
{
}

/// Prepending twice is prepending the concatenation.
pub proof fn lemma_prepend_concat(
    a: Seq<SpecificationModel>,
    b: Seq<SpecificationModel>,
    rest: Option<Seq<SpecificationModel>>,
)
    ensures
        prepend_specs(a, prepend_specs(b, rest)) == prepend_specs(a + b, rest),
{
    match rest {
        None => {},
        Some(r) => {
            assert(a + (b + r) =~= (a + b) + r);
        },
    }
}

/// Whether the character of `s` at `i` is a decimal digit.
fn digit_at(s: &str, i: usize) -> (r: bool)
    requires
        i < s@.len(),
    ensures
        r == is_digit(s@[i as int]),
{
    let c = s.get_char(i);
    '0' <= c && c <= '9'
}

/// Extract the integer value of a trimmed argument segment.
fn int_segment_value_exec(s: &str) -> (r: Option<String>)
    ensures
        match r {
            Some(v) => int_segment_value(s@) == Some(v@),
            None => int_segment_value(s@) is None,
        },
{
    let len = s.unicode_len();
    if len == 0 || !digit_at(s, 0) {
        return None;
    }
    let mut e: usize = 0;
    while e < len && digit_at(s, e)
        invariant
            0 <= e <= len,
            len == s@.len(),
            leading_digits_end(s@, 0) == leading_digits_end(s@, e as int),
        decreases len - e,
    {
        e += 1;
    }
    if e < len {
        let c = s.get_char(e);
        if c == '_' {
            Some(text::substring(s, 0, e))
        } else {
            None
        }
    } else {
        None
    }
}

/// Whether a trimmed argument segment is a nested structure reference.
fn sdsl_segment_ok_exec(s: &str) -> (r: bool)
    ensures
        r == sdsl_segment_ok(s@),
{
    proof {
        reveal_strlit("sdsl::");
    }
    text::starts_with(s, "sdsl::")
}

/// Find the trimmed argument segments of a parameterized mention of the
/// anchor (the path followed by an opening bracket) at position `i`.
fn mention_at_exec(t: &str, path: &str, anchor: &str, i: usize) -> (r: Option<(
    Vec<String>,
    usize,
)>)
    requires
        anchor@ == path@.push('<'),
    ensures
        match r {
            Some((segs, end)) => mention_at(t@, path@, i as int) == Some(
                (segs.deep_view(), end as int),
            ) && i < end <= t@.len(),
            None => mention_at(t@, path@, i as int) is None,
        },
{
    let t_len = t.unicode_len();
    let anchor_len = anchor.unicode_len();
    if i < 1 || i > t_len || anchor_len > t_len - i {
        return None;
    }
    let prev = t.get_char(i - 1);
    if prev != ' ' && prev != '&' {
        return None;
    }
    if !text::occurs_at_exec(t, anchor, i) {
        return None;
    }
    let e = i + anchor_len;
    let ghost e0 = e as int;
    let mut pos = e;
    let mut depth: usize = 0;
    let mut start = e;
    let mut spans: Vec<(usize, usize)> = Vec::new();
    proof {
        assert(spans@.map_values(|sp: (usize, usize)| (sp.0 as int, sp.1 as int)) =~= Seq::<
            (int, int),
        >::empty());
    }
    loop
        invariant
            anchor@ == path@.push('<'),
            1 <= i,
            t@[i - 1] == ' ' || t@[i - 1] == '&',
            occurs_at(t@, path@.push('<'), i as int),
            e0 == i + path@.len() + 1,
            0 <= e0 <= start <= pos <= t_len,
            depth <= pos,
            t_len == t@.len(),
            arg_bounds(t@, e0, 0, e0, seq![]) == arg_bounds(
                t@,
                pos as int,
                depth as int,
                start as int,
                spans@.map_values(|sp: (usize, usize)| (sp.0 as int, sp.1 as int)),
            ),
            forall|k: int|
                0 <= k < spans@.len() ==> 0 <= (#[trigger] spans@[k]).0 <= spans@[k].1 <= pos,
        decreases t_len - pos,
    {
        if pos >= t_len {
            return None;
        }
        let c = t.get_char(pos);
        if c == ';' || c == '\n' {
            return None;
        }
        let ghost before = spans@.map_values(|sp: (usize, usize)| (sp.0 as int, sp.1 as int));
        if c == '<' {
            depth += 1;
            pos += 1;
        } else if c == '>' {
            if depth == 0 {
                spans.push((start, pos));
                proof {
                    assert(spans@.map_values(|sp: (usize, usize)| (sp.0 as int, sp.1 as int))
                        =~= before.push((start as int, pos as int)));
                }
                let end = pos + 1;
                if end < t_len {
                    let term = t.get_char(end);
                    if term == ';' {
                        let mut segs: Vec<String> = Vec::new();
                        let ghost sp_seq = spans@.map_values(
                            |sp: (usize, usize)| (sp.0 as int, sp.1 as int),
                        );
                        let mut k: usize = 0;
                        while k < spans.len()
                            invariant
                                0 <= k <= spans@.len(),
                                t_len == t@.len(),
                                anchor@ == path@.push('<'),
                                1 <= i,
                                t@[i - 1] == ' ' || t@[i - 1] == '&',
                                occurs_at(t@, path@.push('<'), i as int),
                                e0 == i + path@.len() + 1,
                                sp_seq == spans@.map_values(
                                    |sp: (usize, usize)| (sp.0 as int, sp.1 as int),
                                ),
                                forall|m: int|
                                    0 <= m < spans@.len() ==> 0 <= (#[trigger] spans@[m]).0
                                        <= spans@[m].1 <= t_len,
                                segs.deep_view() == sp_seq.map_values(
                                    |sp: (int, int)| trim_seq(t@.subrange(sp.0, sp.1)),
                                ).take(k as int),
                            decreases spans@.len() - k,
                        {
                            let ghost before_segs = segs.deep_view();
                            let (a, b) = (spans[k].0, spans[k].1);
                            segs.push(trimmed_substring(t, a, b));
                            proof {
                                assert(segs.deep_view() =~= before_segs.push(
                                    trim_seq(t@.subrange(sp_seq[k as int].0, sp_seq[k as int].1)),
                                ));
                                assert(segs.deep_view() =~= sp_seq.map_values(
                                    |sp: (int, int)| trim_seq(t@.subrange(sp.0, sp.1)),
                                ).take(k + 1));
                            }
                            k += 1;
                        }
                        proof {
                            assert(segs.deep_view() =~= sp_seq.map_values(
                                |sp: (int, int)| trim_seq(t@.subrange(sp.0, sp.1)),
                            ));
                        }
                        return Some((segs, end + 1));
                    }
                }
                return None;
            } else {
                depth -= 1;
                pos += 1;
            }
        } else if c == ',' && depth == 0 {
            spans.push((start, pos));
            proof {
                assert(spans@.map_values(|sp: (usize, usize)| (sp.0 as int, sp.1 as int))
                    =~= before.push((start as int, pos as int)));
            }
            start = pos + 1;
            pos += 1;
        } else {
            pos += 1;
        }
    }
}

/// Collect the trimmed argument segments of every parameterized mention of
/// `path` in `t`, in textual order.
fn scan_mentions(t: &str, path: &str) -> (r: Vec<Vec<String>>)
    ensures
        r.deep_view() == spec_scan(t@, path@, 0),
{
    let t_len = t.unicode_len();
    let anchor = text::concat2(path, "<");
    proof {
        reveal_strlit("<");
        assert("<"@ =~= seq!['<']);
        assert(anchor@ =~= path@.push('<'));
    }
    let mut out: Vec<Vec<String>> = Vec::new();
    let mut i: usize = 0;
    proof {
        assert(out.deep_view() + spec_scan(t@, path@, 0) =~= spec_scan(t@, path@, 0));
    }
    while i < t_len
        invariant
            0 <= i,
            t_len == t@.len(),
            anchor@ == path@.push('<'),
            spec_scan(t@, path@, 0) == out.deep_view() + spec_scan(t@, path@, i as int),
        decreases t_len - i,
    {
        let ghost before = out.deep_view();
        match mention_at_exec(t, path, anchor.as_str(), i) {
            Some((segs, _end)) => {
                out.push(segs);
                proof {
                    assert(out.deep_view() =~= before.push(segs.deep_view()));
                    assert(spec_scan(t@, path@, i as int) == seq![segs.deep_view()] + spec_scan(
                        t@,
                        path@,
                        i + 1,
                    ));
                    assert(before + spec_scan(t@, path@, i as int) =~= out.deep_view() + spec_scan(
                        t@,
                        path@,
                        i + 1,
                    ));
                }
            },
            None => {
                proof {
                    assert(spec_scan(t@, path@, i as int) == spec_scan(t@, path@, i + 1));
                    assert(before + spec_scan(t@, path@, i as int) =~= before + spec_scan(
                        t@,
                        path@,
                        i + 1,
                    ));
                }
            },
        }
        i += 1;
    }
    proof {
        assert(spec_scan(t@, path@, i as int) =~= Seq::<Seq<Seq<char>>>::empty());
        assert(out.deep_view() + spec_scan(t@, path@, i as int) =~= out.deep_view());
    }
    out
}

/// Every parameter of the descriptor may be elided.
pub open spec fn all_params_default(m: MetaModel) -> bool {
    forall|j: int|
        0 <= j < params_of(m.kind).len() ==> (#[trigger] params_of(m.kind)[j]).has_default
}

/// Prefix already-resolved specifications onto the rest of a scan, unless
/// the rest failed.
pub open spec fn prepend_specs(
    a: Seq<SpecificationModel>,
    rest: Option<Seq<SpecificationModel>>,
) -> Option<Seq<SpecificationModel>> {
    match rest {
        None => None,
        Some(r) => Some(a + r),
    }
}

/// What the whole analysis of an IR text yields with the given recursion
/// budget: the specifications of every descriptor's mentions, in registry
/// order and textual order, or `None` when a nested structure parameter
/// cannot be resolved to exactly one specification within the budget.
pub open spec fn spec_analyse(t: Seq<char>, fuel: nat) -> Option<Seq<SpecificationModel>>
    decreases fuel, 5int, 0int,
{
    spec_analyse_metas(t, crate::meta::spec_metas(), 0, fuel)
}

/// The analysis restricted to the registry descriptors from `idx` on.
pub open spec fn spec_analyse_metas(
    t: Seq<char>,
    metas: Seq<MetaModel>,
    idx: int,
    fuel: nat,
) -> Option<Seq<SpecificationModel>>
    decreases fuel, 4int, metas.len() - idx,
{
    if idx < 0 || idx >= metas.len() {
        Some(seq![])
    } else {
        match spec_meta_specs(t, metas[idx], fuel) {
            None => None,
            Some(s1) => prepend_specs(s1, spec_analyse_metas(t, metas, idx + 1, fuel)),
        }
    }
}

/// The parameterized part of one descriptor's analysis: nothing for a
/// descriptor without parameters, otherwise the specifications of its
/// parameterized mentions.
pub open spec fn spec_parameterized(t: Seq<char>, m: MetaModel, fuel: nat) -> Option<
    Seq<SpecificationModel>,
>
    decreases fuel, 3int, 1int,
{
    if params_of(m.kind).len() == 0 {
        Some(seq![])
    } else {
        spec_mentions_specs(t, m, spec_scan(t, spec_path(m.kind), 0), 0, fuel)
    }
}

/// What one descriptor contributes: its default specification when the IR
/// mentions it bare and all its parameters have defaults, followed by the
/// specifications of its parameterized mentions.
pub open spec fn spec_meta_specs(t: Seq<char>, m: MetaModel, fuel: nat) -> Option<
    Seq<SpecificationModel>,
>
    decreases fuel, 3int, 2int,
{
    let base: Option<Seq<SpecificationModel>> = if all_params_default(m) && has_bare_mention(
        t,
        spec_path(m.kind),
    ) {
        match spec_from_default(m) {
            None => None,
            Some(s) => Some(seq![s]),
        }
    } else {
        Some(seq![])
    };
    match base {
        None => None,
        Some(b) => prepend_specs(b, spec_parameterized(t, m, fuel)),
    }
}

/// The possible outcomes of holding one mention's argument segments
/// against one descriptor.
pub ghost enum MentionOutcome {
    /// Resolution failed; the whole analysis fails.
    Error,
    /// The segments do not fit the descriptor's accepted forms; the
    /// mention yields nothing for this descriptor.
    Skip,
    /// The mention resolved to a specification.
    Found(SpecificationModel),
}

/// The specifications of the mentions from `idx` on; a skipped mention
/// contributes nothing, a failed one fails the analysis.
pub open spec fn spec_mentions_specs(
    t: Seq<char>,
    m: MetaModel,
    mentions: Seq<Seq<Seq<char>>>,
    idx: int,
    fuel: nat,
) -> Option<Seq<SpecificationModel>>
    decreases fuel, 2int, mentions.len() - idx,
{
    if idx < 0 || idx >= mentions.len() {
        Some(seq![])
    } else {
        match spec_mention_outcome(m, mentions[idx], fuel) {
            MentionOutcome::Error => None,
            MentionOutcome::Skip => spec_mentions_specs(t, m, mentions, idx + 1, fuel),
            MentionOutcome::Found(s) => prepend_specs(
                seq![s],
                spec_mentions_specs(t, m, mentions, idx + 1, fuel),
            ),
        }
    }
}

/// One mention's outcome against one descriptor: skipped unless the
/// argument count is accepted and every segment fits its slot; then each
/// parameter is resolved and the specification is assembled.
pub open spec fn spec_mention_outcome(m: MetaModel, segs: Seq<Seq<char>>, fuel: nat) -> MentionOutcome
    decreases fuel, 1int, 1int,
{
    let params = params_of(m.kind);
    if !accepts_count(params, segs.len() as int) {
        MentionOutcome::Skip
    } else if exists|j: int|
        0 <= j < segs.len() && segment_value(#[trigger] params[j], segs[j]) is None {
        MentionOutcome::Skip
    } else {
        match spec_resolve_params(m, segs, 0, fuel) {
            None => MentionOutcome::Error,
            Some(ps) => match spec_from_parameterized(m, ps) {
                None => MentionOutcome::Error,
                Some(s) => MentionOutcome::Found(s),
            },
        }
    }
}

/// The specification a nested structure parameter's captured text resolves
/// to: the analysis of a synthetic one-mention fragment, which must yield
/// exactly one specification within the remaining budget.
pub open spec fn spec_nested(value: Seq<char>, fuel: nat) -> Option<SpecificationModel>
    decreases fuel, 0int, 0int,
{
    if fuel == 0 {
        None
    } else {
        match spec_analyse(seq![' '] + value + seq![';'], (fuel - 1) as nat) {
            None => None,
            Some(list) => if list.len() == 1 {
                Some(list[0])
            } else {
                None
            },
        }
    }
}

/// The specifications of one mention's parameters from slot `j` on:
/// captured integer literals resolve through a generic descriptor, nested
/// structure references recurse into the analysis, and elided trailing
/// parameters take their descriptor's default specification.
pub open spec fn spec_resolve_params(
    m: MetaModel,
    segs: Seq<Seq<char>>,
    j: int,
    fuel: nat,
) -> Option<Seq<SpecificationModel>>
    decreases fuel, 0int, 2 * (params_of(m.kind).len() - j) + 1,
{
    let params = params_of(m.kind);
    if j < 0 || j >= params.len() {
        Some(seq![])
    } else {
        match spec_resolve_slot(m, segs, j, fuel) {
            None => None,
            Some(h) => prepend_specs(seq![h], spec_resolve_params(m, segs, j + 1, fuel)),
        }
    }
}

/// The specification one parameter slot resolves to: a captured value when
/// supplied, the slot's default descriptor when elided.
pub open spec fn spec_resolve_slot(
    m: MetaModel,
    segs: Seq<Seq<char>>,
    j: int,
    fuel: nat,
) -> Option<SpecificationModel>
    decreases fuel, 0int, 2 * (params_of(m.kind).len() - j),
{
    let params = params_of(m.kind);
    if j < 0 || j >= params.len() {
        None
    } else if j < segs.len() {
        match segment_value(params[j], segs[j]) {
            None => None,
            Some(val) => if params[j].is_sdsl_type {
                spec_nested(val, fuel)
            } else {
                spec_from_default(
                    MetaModel { kind: MetaKind::Generic, value: val, defaults: seq![] },
                )
            },
        }
    } else {
        if j < m.defaults.len() {
            spec_from_default(m.defaults[j])
        } else {
            None
        }
    }
}

/// Unfolding one step of the parameter resolution when the slot resolves.
pub proof fn lemma_resolve_step(
    m: MetaModel,
    segs: Seq<Seq<char>>,
    j: int,
    fuel: nat,
    h: SpecificationModel,
)
    requires
        0 <= j < params_of(m.kind).len(),
        spec_resolve_slot(m, segs, j, fuel) == Some(h),
    ensures
        spec_resolve_params(m, segs, j, fuel) == prepend_specs(
            seq![h],
            spec_resolve_params(m, segs, j + 1, fuel),
        ),
{
}

/// Unfolding one step of the parameter resolution when the slot fails.
pub proof fn lemma_resolve_step_fails(m: MetaModel, segs: Seq<Seq<char>>, j: int, fuel: nat)
    requires
        0 <= j < params_of(m.kind).len(),
        spec_resolve_slot(m, segs, j, fuel) is None,
    ensures
        spec_resolve_params(m, segs, j, fuel) is None,
{
}

/// Prepending onto a prepend is a push.
pub proof fn lemma_prepend_push(
    a: Seq<SpecificationModel>,
    x: SpecificationModel,
    rest: Option<Seq<SpecificationModel>>,
)
    ensures
        prepend_specs(a, prepend_specs(seq![x], rest)) == prepend_specs(a.push(x), rest),
{
    match rest {
        None => {},
        Some(r) => {
            assert(a + (seq![x] + r) =~= a.push(x) + r);
        },
    }
}

/// Analyze an IR text: discover every mention of a bindable structure and
/// resolve each into a specification.
pub fn analyse(code_meta: &CodeMeta) -> (r: Result<Vec<Specification>, BuildError>)
    ensures
        match r {
            Ok(v) => spec_analyse(code_meta.mir@, MAX_NESTING_DEPTH as nat) == Some(v.deep_view()),
            Err(e) => spec_analyse(code_meta.mir@, MAX_NESTING_DEPTH as nat) is None,
        },
{
    analyse_inner(code_meta, MAX_NESTING_DEPTH)
}

/// Analyze an IR text with an explicit recursion budget for nested
/// structure parameters.
#[verifier::rlimit(100)]
fn analyse_inner(code_meta: &CodeMeta, fuel: u64) -> (r: Result<Vec<Specification>, BuildError>)
    ensures
        match r {
            Ok(v) => spec_analyse(code_meta.mir@, fuel as nat) == Some(v.deep_view()),
            Err(e) => spec_analyse(code_meta.mir@, fuel as nat) is None,
        },
    decreases fuel, 5int,
{
    let ghost t = code_meta.mir@;
    let ghost ms = crate::meta::spec_metas();
    let metas = crate::meta::get_metas();
    proof {
        crate::meta::lemma_spec_metas_wf();
        crate::meta::common::lemma_models_of(metas@);
    }
    let mut interface_specs: Vec<Specification> = Vec::new();
    let mut idx: usize = 0;
    proof {
        assert(interface_specs.deep_view() + spec_analyse_metas(t, ms, 0, fuel as nat)->0
            =~= spec_analyse_metas(t, ms, 0, fuel as nat)->0);
    }
    while idx < metas.len()
        invariant
            0 <= idx <= metas@.len(),
            t == code_meta.mir@,
            ms == crate::meta::spec_metas(),
            crate::meta::common::models_of(metas@) == ms,
            crate::meta::common::models_of(metas@).len() == metas@.len(),
            forall|k: int|
                0 <= k < metas@.len() ==> crate::meta::common::models_of(metas@)[k] == (
                #[trigger] metas@[k]).model(),
            forall|k: int| 0 <= k < ms.len() ==> (#[trigger] ms[k]).wf(),
            spec_analyse_metas(t, ms, 0, fuel as nat) == prepend_specs(
                interface_specs.deep_view(),
                spec_analyse_metas(t, ms, idx as int, fuel as nat),
            ),
        decreases metas@.len() - idx,
    {
        let meta = &metas[idx];
        let ghost before = interface_specs.deep_view();
        proof {
            assert(meta.model() == ms[idx as int]);
            assert(meta.model().wf());
        }
        match meta_specifications(code_meta, meta, fuel) {
            Ok(specs) => {
                let ghost pv = specs.deep_view();
                let mut rest = specs;
                interface_specs.append(&mut rest);
                proof {
                    lemma_analyse_metas_step(t, ms, idx as int, fuel as nat);
                    lemma_prepend_concat(
                        before,
                        pv,
                        spec_analyse_metas(t, ms, idx + 1, fuel as nat),
                    );
                    assert(interface_specs.deep_view() =~= before + pv);
                }
            },
            Err(e) => {
                proof {
                    lemma_analyse_metas_step(t, ms, idx as int, fuel as nat);
                }
                return Err(e);
            },
        }
        idx += 1;
    }
    proof {
        assert(spec_analyse_metas(t, ms, idx as int, fuel as nat) == Some(
            Seq::<SpecificationModel>::empty(),
        ));
        assert(interface_specs.deep_view() + Seq::<SpecificationModel>::empty()
            =~= interface_specs.deep_view());
    }
    Ok(interface_specs)
}

/// What one descriptor contributes to the analysis of one IR text: its
/// default specification on a bare mention, then its parameterized
/// mentions in textual order.
fn meta_specifications(code_meta: &CodeMeta, meta: &Meta, fuel: u64) -> (r: Result<
    Vec<Specification>,
    BuildError,
>)
    requires
        meta.model().wf(),
    ensures
        match r {
            Ok(v) => spec_meta_specs(code_meta.mir@, meta.model(), fuel as nat) == Some(
                v.deep_view(),
            ),
            Err(e) => spec_meta_specs(code_meta.mir@, meta.model(), fuel as nat) is None,
        },
    decreases fuel, 4int,
{
    let ghost t = code_meta.mir@;
    let ghost m = meta.model();
    let mut specs: Vec<Specification> = Vec::new();
    match default_specification(code_meta, meta) {
        Ok(Some(spec)) => {
            specs.push(spec);
        },
        Ok(None) => {},
        Err(e) => {
            return Err(e);
        },
    }
    let ghost base = specs.deep_view();
    match parameterized_specifications(code_meta, meta, fuel) {
        Ok(v) => {
            let ghost pv = v.deep_view();
            let mut rest = v;
            specs.append(&mut rest);
            proof {
                assert(specs.deep_view() =~= base + pv);
                assert(spec_meta_specs(t, m, fuel as nat) == Some(base + pv));
            }
            Ok(specs)
        },
        Err(e) => Err(e),
    }
}

/// The default-instantiation part of one descriptor's analysis: a bare
/// mention of a fully defaulted descriptor yields its default
/// specification.
fn default_specification(code_meta: &CodeMeta, meta: &Meta) -> (r: Result<
    Option<Specification>,
    BuildError,
>)
    requires
        meta.model().wf(),
    ensures
        match r {
            Ok(o) => {
                let bare = all_params_default(meta.model()) && has_bare_mention(
                    code_meta.mir@,
                    crate::meta::common::spec_path(meta.model().kind),
                );
                match o {
                    Some(s) => bare && spec_from_default(meta.model()) == Some(s.deep_view()),
                    None => !bare,
                }
            },
            Err(e) => all_params_default(meta.model()) && has_bare_mention(
                code_meta.mir@,
                crate::meta::common::spec_path(meta.model().kind),
            ) && spec_from_default(meta.model()) is None,
        },
{
    let params = meta.parameters();
    let mut j: usize = 0;
    while j < params.len()
        invariant
            0 <= j <= params@.len(),
            params.deep_view() == params_of(meta.model().kind),
            params.deep_view().len() == params@.len(),
            forall|k: int|
                0 <= k < j ==> (#[trigger] params_of(meta.model().kind)[k]).has_default,
        decreases params@.len() - j,
    {
        if !params[j].has_default {
            proof {
                assert(params.deep_view()[j as int].has_default == params@[j as int].has_default);
            }
            return Ok(None);
        }
        proof {
            assert(params.deep_view()[j as int].has_default == params@[j as int].has_default);
        }
        j += 1;
    }
    let path = meta.path();
    if !has_bare_mention_exec(code_meta.mir.as_str(), path.as_str()) {
        return Ok(None);
    }
    proof {
        if params_of(meta.model().kind).len() > 0 {
            assert(params_of(meta.model().kind)[0].has_default);
        }
        assert(meta.model().defaults.len() == params_of(meta.model().kind).len());
    }
    match Specification::from_default_meta(meta) {
        Ok(s) => Ok(Some(s)),
        Err(e) => Err(e),
    }
}

/// The parameterized part of one descriptor's analysis: scan for
/// parameterized mentions and resolve each one that fits an accepted form.
#[verifier::rlimit(100)]
fn parameterized_specifications(code_meta: &CodeMeta, meta: &Meta, fuel: u64) -> (r: Result<
    Vec<Specification>,
    BuildError,
>)
    requires
        meta.model().wf(),
    ensures
        match r {
            Ok(v) => spec_parameterized(code_meta.mir@, meta.model(), fuel as nat) == Some(
                v.deep_view(),
            ),
            Err(e) => spec_parameterized(code_meta.mir@, meta.model(), fuel as nat) is None,
        },
    decreases fuel, 3int,
{
    let ghost t = code_meta.mir@;
    let ghost m = meta.model();
    let params = meta.parameters();
    if params.len() == 0 {
        let r: Vec<Specification> = Vec::new();
        proof {
            assert(r.deep_view() =~= Seq::<SpecificationModel>::empty());
        }
        return Ok(r);
    }
    let path = meta.path();
    let mentions = scan_mentions(code_meta.mir.as_str(), path.as_str());
    let ghost mentions_seq = mentions.deep_view();
    let mut specs: Vec<Specification> = Vec::new();
    let mut idx: usize = 0;
    proof {
        assert(specs.deep_view() + spec_mentions_specs(t, m, mentions_seq, 0, fuel as nat)->0
            =~= spec_mentions_specs(t, m, mentions_seq, 0, fuel as nat)->0);
    }
    while idx < mentions.len()
        invariant
            0 <= idx <= mentions@.len(),
            t == code_meta.mir@,
            m == meta.model(),
            meta.model().wf(),
            params_of(m.kind).len() > 0,
            mentions_seq == mentions.deep_view(),
            mentions_seq == spec_scan(t, crate::meta::common::spec_path(m.kind), 0),
            mentions_seq.len() == mentions@.len(),
            forall|k: int|
                0 <= k < mentions@.len() ==> (#[trigger] mentions@[k]).deep_view()
                    == mentions_seq[k],
            spec_mentions_specs(t, m, mentions_seq, 0, fuel as nat) == prepend_specs(
                specs.deep_view(),
                spec_mentions_specs(t, m, mentions_seq, idx as int, fuel as nat),
            ),
        decreases mentions@.len() - idx,
    {
        let ghost before = specs.deep_view();
        let ghost segs = mentions_seq[idx as int];
        let captures = &mentions[idx];
        match resolve_mention(captures, meta, fuel) {
            Ok(Some(spec)) => {
                proof {
                    lemma_mentions_step(t, m, mentions_seq, idx as int, fuel as nat);
                    lemma_prepend_push(
                        before,
                        spec.deep_view(),
                        spec_mentions_specs(t, m, mentions_seq, idx + 1, fuel as nat),
                    );
                }
                specs.push(spec);
                proof {
                    assert(specs.deep_view() =~= before.push(specs@[specs@.len()
                        - 1].deep_view()));
                }
            },
            Ok(None) => {
                proof {
                    lemma_mentions_step(t, m, mentions_seq, idx as int, fuel as nat);
                }
            },
            Err(e) => {
                proof {
                    lemma_mentions_step(t, m, mentions_seq, idx as int, fuel as nat);
                }
                return Err(e);
            },
        }
        idx += 1;
    }
    proof {
        assert(spec_mentions_specs(t, m, mentions_seq, idx as int, fuel as nat) == Some(
            Seq::<SpecificationModel>::empty(),
        ));
        assert(specs.deep_view() + Seq::<SpecificationModel>::empty() =~= specs.deep_view());
    }
    Ok(specs)
}

/// Hold one mention's argument segments against one descriptor: nothing
/// when they do not fit an accepted form, a specification when resolution
/// succeeds, an error when a parameter cannot be resolved.
fn resolve_mention(captures: &Vec<String>, meta: &Meta, fuel: u64) -> (r: Result<
    Option<Specification>,
    BuildError,
>)
    requires
        meta.model().wf(),
    ensures
        match r {
            Ok(o) => match o {
                Some(s) => spec_mention_outcome(meta.model(), captures.deep_view(), fuel as nat)
                    == MentionOutcome::Found(s.deep_view()),
                None => spec_mention_outcome(
                    meta.model(),
                    captures.deep_view(),
                    fuel as nat,
                ) is Skip,
            },
            Err(e) => spec_mention_outcome(
                meta.model(),
                captures.deep_view(),
                fuel as nat,
            ) is Error,
        },
    decreases fuel, 2int,
{
    let ghost m = meta.model();
    let ghost segs = captures.deep_view();
    if !mention_fits(captures, meta) {
        proof {
            lemma_outcome_skip(m, segs, fuel as nat);
        }
        return Ok(None);
    }
    proof {
        lemma_outcome_resolved(m, segs, fuel as nat);
    }
    match parameter_specifications(captures, meta, fuel) {
        Ok(parameter_specs) => {
            match Specification::from_parameterized_meta(&parameter_specs, meta) {
                Ok(spec) => Ok(Some(spec)),
                Err(e) => Err(e),
            }
        },
        Err(e) => Err(e),
    }
}

/// Whether the argument count of a mention is accepted by the
/// descriptor's declared parameters.
fn accepts_count_exec(params: &Vec<crate::meta::common::Parameter>, k: usize) -> (r: bool)
    requires
        params.deep_view().len() == params@.len(),
    ensures
        r == accepts_count(params.deep_view(), k as int),
{
    let ghost ps = params.deep_view();
    let n = params.len();
    if k == n {
        return true;
    }
    if k < 1 || k > n {
        return false;
    }
    let mut j = k;
    while j < n
        invariant
            k <= j <= n,
            n == ps.len(),
            ps == params.deep_view(),
            params@.len() == n,
            forall|x: int| k <= x < j ==> (#[trigger] ps[x]).has_default,
        decreases n - j,
    {
        proof {
            assert(ps[j as int] == params@[j as int].deep_view());
        }
        if !params[j].has_default {
            return false;
        }
        j += 1;
    }
    true
}

/// Whether a mention's argument segments fit one of the descriptor's
/// accepted forms: an accepted argument count and a fitting value in every
/// supplied slot.
fn mention_fits(captures: &Vec<String>, meta: &Meta) -> (r: bool)
    ensures
        r == (accepts_count(params_of(meta.model().kind), captures@.len() as int)
            && !(exists|j: int|
            0 <= j < captures@.len() && segment_value(
                #[trigger] params_of(meta.model().kind)[j],
                captures.deep_view()[j],
            ) is None)),
{
    let ghost ps = params_of(meta.model().kind);
    let params = meta.parameters();
    let k = captures.len();
    if !accepts_count_exec(&params, k) {
        return false;
    }
    let mut j: usize = 0;
    while j < k
        invariant
            0 <= j <= k,
            k == captures@.len(),
            ps == params_of(meta.model().kind),
            k <= ps.len(),
            params.deep_view() == ps,
            params@.len() == ps.len(),
            accepts_count(ps, k as int),
            forall|x: int|
                0 <= x < j ==> segment_value(
                    #[trigger] ps[x],
                    captures.deep_view()[x],
                ) is Some,
        decreases k - j,
    {
        proof {
            assert(params@[j as int].deep_view() == ps[j as int]);
            assert(captures@[j as int]@ == captures.deep_view()[j as int]);
        }
        if params[j].is_sdsl_type {
            if !sdsl_segment_ok_exec(captures[j].as_str()) {
                proof {
                    assert(segment_value(ps[j as int], captures.deep_view()[j as int]) is None);
                }
                return false;
            }
        } else {
            match int_segment_value_exec(captures[j].as_str()) {
                Some(_) => {},
                None => {
                    proof {
                        assert(segment_value(
                            ps[j as int],
                            captures.deep_view()[j as int],
                        ) is None);
                    }
                    return false;
                },
            }
        }
        j += 1;
    }
    true
}

/// Resolve each parameter slot of one accepted mention into a
/// specification: captured integer literals through a generic descriptor,
/// captured structure references through the nested analysis, elided
/// trailing parameters through their default descriptors.
#[verifier::rlimit(100)]
fn parameter_specifications(captures: &Vec<String>, meta: &Meta, fuel: u64) -> (r: Result<
    Vec<Specification>,
    BuildError,
>)
    requires
        meta.model().wf(),
    ensures
        match r {
            Ok(v) => spec_resolve_params(
                meta.model(),
                captures.deep_view(),
                0,
                fuel as nat,
            ) == Some(v.deep_view()) && v@.len() == params_of(meta.model().kind).len(),
            Err(e) => spec_resolve_params(
                meta.model(),
                captures.deep_view(),
                0,
                fuel as nat,
            ) is None,
        },
    decreases fuel, 1int,
{
    let ghost m = meta.model();
    let ghost segs = captures.deep_view();
    let params = meta.parameters();
    let n = params.len();
    let mut specs: Vec<Specification> = Vec::new();
    let mut j: usize = 0;
    proof {
        assert(specs.deep_view() + spec_resolve_params(m, segs, 0, fuel as nat)->0
            =~= spec_resolve_params(m, segs, 0, fuel as nat)->0);
    }
    while j < n
        invariant
            0 <= j <= n,
            m == meta.model(),
            meta.model().wf(),
            segs == captures.deep_view(),
            segs.len() == captures@.len(),
            forall|k: int| 0 <= k < captures@.len() ==> (#[trigger] captures@[k])@ == segs[k],
            params.deep_view() == params_of(m.kind),
            params@.len() == n,
            n == params_of(m.kind).len(),
            specs@.len() == j,
            spec_resolve_params(m, segs, 0, fuel as nat) == prepend_specs(
                specs.deep_view(),
                spec_resolve_params(m, segs, j as int, fuel as nat),
            ),
        decreases n - j,
    {
        let ghost before = specs.deep_view();
        let spec: Specification = if j < captures.len() {
            proof {
                assert(params@[j as int].deep_view() == params_of(m.kind)[j as int]);
            }
            if params[j].is_sdsl_type {
                if !sdsl_segment_ok_exec(captures[j].as_str()) {
                    proof {
                        assert(spec_resolve_slot(m, segs, j as int, fuel as nat) is None);
                        lemma_resolve_step_fails(m, segs, j as int, fuel as nat);
                    }
                    return Err(
                        BuildError::AmbiguousNestedType { value: captures[j].clone(), count: 0 },
                    );
                }
                match handle_sdsl_type(captures[j].as_str(), fuel) {
                    Ok(s) => {
                        proof {
                            assert(spec_resolve_slot(m, segs, j as int, fuel as nat) == Some(
                                s.deep_view(),
                            ));
                        }
                        s
                    },
                    Err(e) => {
                        proof {
                            assert(spec_resolve_slot(m, segs, j as int, fuel as nat) is None);
                            lemma_resolve_step_fails(m, segs, j as int, fuel as nat);
                        }
                        return Err(e);
                    },
                }
            } else {
                match int_segment_value_exec(captures[j].as_str()) {
                    Some(value) => {
                        let generic = Meta::Generic(
                            crate::meta::common::GenericMeta::new(value.as_str()),
                        );
                        proof {
                            assert(generic.model().wf());
                            assert(generic.model().defaults.len() == params_of(
                                generic.model().kind,
                            ).len());
                        }
                        match Specification::from_default_meta(&generic) {
                            Ok(s) => {
                                proof {
                                    assert(spec_resolve_slot(m, segs, j as int, fuel as nat)
                                        == Some(s.deep_view()));
                                }
                                s
                            },
                            Err(e) => {
                                proof {
                                    assert(spec_resolve_slot(
                                        m,
                                        segs,
                                        j as int,
                                        fuel as nat,
                                    ) is None);
                                    lemma_resolve_step_fails(m, segs, j as int, fuel as nat);
                                }
                                return Err(e);
                            },
                        }
                    },
                    None => {
                        proof {
                            assert(spec_resolve_slot(m, segs, j as int, fuel as nat) is None);
                            lemma_resolve_step_fails(m, segs, j as int, fuel as nat);
                        }
                        return Err(
                            BuildError::AmbiguousNestedType {
                                value: captures[j].clone(),
                                count: 0,
                            },
                        );
                    },
                }
            }
        } else {
            match meta.parameters_meta() {
                Some(defaults) => {
                    if j < defaults.len() {
                        proof {
                            crate::meta::common::lemma_models_of(defaults@);
                            specification::lemma_children_usable(*meta, defaults@);
                        }
                        match Specification::from_default_meta(&defaults[j]) {
                            Ok(s) => {
                                proof {
                                    assert(spec_resolve_slot(m, segs, j as int, fuel as nat)
                                        == Some(s.deep_view()));
                                }
                                s
                            },
                            Err(e) => {
                                proof {
                                    assert(spec_resolve_slot(
                                        m,
                                        segs,
                                        j as int,
                                        fuel as nat,
                                    ) is None);
                                    lemma_resolve_step_fails(m, segs, j as int, fuel as nat);
                                }
                                return Err(e);
                            },
                        }
                    } else {
                        proof {
                            crate::meta::common::lemma_models_of(defaults@);
                            assert(spec_resolve_slot(m, segs, j as int, fuel as nat) is None);
                            lemma_resolve_step_fails(m, segs, j as int, fuel as nat);
                        }
                        return Err(BuildError::MissingNestedFileSpecs);
                    }
                },
                None => {
                    proof {
                        assert(spec_resolve_slot(m, segs, j as int, fuel as nat) is None);
                        lemma_resolve_step_fails(m, segs, j as int, fuel as nat);
                    }
                    return Err(BuildError::MissingNestedFileSpecs);
                },
            }
        };
        proof {
            lemma_resolve_step(m, segs, j as int, fuel as nat, spec.deep_view());
            lemma_prepend_push(
                before,
                spec.deep_view(),
                spec_resolve_params(m, segs, j + 1, fuel as nat),
            );
        }
        specs.push(spec);
        proof {
            assert(specs.deep_view() =~= before.push(spec.deep_view()));
        }
        j += 1;
    }
    proof {
        assert(spec_resolve_params(m, segs, j as int, fuel as nat) == Some(
            Seq::<SpecificationModel>::empty(),
        ));
        assert(specs.deep_view() + Seq::<SpecificationModel>::empty() =~= specs.deep_view());
    }
    Ok(specs)
}

/// Resolve the captured text of a nested structure parameter by analyzing
/// a synthetic one-mention fragment; exactly one specification must
/// result.
fn handle_sdsl_type(parameter_value: &str, fuel: u64) -> (r: Result<Specification, BuildError>)
    ensures
        match r {
            Ok(s) => spec_nested(parameter_value@, fuel as nat) == Some(s.deep_view()),
            Err(e) => spec_nested(parameter_value@, fuel as nat) is None,
        },
    decreases fuel, 0int,
{
    if fuel == 0 {
        return Err(BuildError::RecursionLimit { value: parameter_value.to_owned() });
    }
    let mir = crate::text::concat3(" ", parameter_value, ";");
    proof {
        reveal_strlit(" ");
        reveal_strlit(";");
        assert(" "@ =~= seq![' ']);
        assert(";"@ =~= seq![';']);
        assert(mir@ =~= seq![' '] + parameter_value@ + seq![';']);
    }
    let code_meta = CodeMeta { mir };
    let specifications = match analyse_inner(&code_meta, fuel - 1) {
        Ok(v) => v,
        Err(e) => {
            return Err(e);
        },
    };
    if specifications.len() == 1 {
        let mut specifications = specifications;
        let first = specifications.remove(0);
        proof {
            assert(first.deep_view() == spec_analyse(
                code_meta.mir@,
                (fuel - 1) as nat,
            )->0[0]);
        }
        Ok(first)
    } else {
        Err(
            BuildError::AmbiguousNestedType {
                value: parameter_value.to_owned(),
                count: specifications.len(),
            },
        )
    }
}

/// Whether `t` mentions `path` bare: the path with a reference or
/// whitespace prefix and a terminating semicolon, no parameter list.
fn has_bare_mention_exec(t: &str, path: &str) -> (r: bool)
    ensures
        r == has_bare_mention(t@, path@),
{
    let t_len = t.unicode_len();
    let pattern = text::concat2(path, ";");
    proof {
        reveal_strlit(";");
        assert(";"@ =~= seq![';']);
        assert(pattern@ =~= path@.push(';'));
    }
    let mut i: usize = 1;
    loop
        invariant
            1 <= i,
            t_len == t@.len(),
            pattern@ == path@.push(';'),
            forall|j: int| j < i ==> !bare_mention_at(t@, path@, j),
        decreases t_len + 1 - i,
    {
        if i >= t_len {
            proof {
                assert forall|j: int| true implies !bare_mention_at(t@, path@, j) by {
                    if j >= i {
                        assert(j + pattern@.len() > t@.len());
                    }
                }
            }
            return false;
        }
        match text::find_from(t, pattern.as_str(), i) {
            Some(k) => {
                proof {
                    text::lemma_find_first_characterization(t@, pattern@, i as int);
                }
                let prev = t.get_char(k - 1);
                if prev == ' ' || prev == '&' {
                    proof {
                        assert(bare_mention_at(t@, path@, k as int));
                    }
                    return true;
                }
                proof {
                    assert forall|j: int| j < k + 1 implies !bare_mention_at(t@, path@, j) by {}
                }
                i = k + 1;
            },
            None => {
                proof {
                    text::lemma_find_first_characterization(t@, pattern@, i as int);
                    assert forall|j: int| true implies !bare_mention_at(t@, path@, j) by {}
                }
                return false;
            },
        }
    }
}

/// A mention that elides a trailing run of defaulted parameters is
/// accepted: supplying the first `k` of `n` declared parameters matches
/// when every elided slot has a default.
pub proof fn lemma_elided_defaults_accepted(m: MetaModel, k: int)
    requires
        1 <= k <= params_of(m.kind).len(),
        forall|j: int|
            k <= j < params_of(m.kind).len() ==> (#[trigger] params_of(m.kind)[j]).has_default,
    ensures
        accepts_count(params_of(m.kind), k),
{
}

/// A mention that supplies an extra, undeclared parameter is never
/// matched: whatever its segments hold, the outcome is to skip it.
pub proof fn lemma_extra_parameter_rejected(m: MetaModel, segs: Seq<Seq<char>>, fuel: nat)
    requires
        segs.len() > params_of(m.kind).len(),
    ensures
        spec_mention_outcome(m, segs, fuel) is Skip,
{
}

/// A mention that elides a non-defaulted parameter is never matched.
pub proof fn lemma_elided_required_rejected(m: MetaModel, segs: Seq<Seq<char>>, fuel: nat)
    requires
        segs.len() < params_of(m.kind).len(),
        exists|j: int|
            segs.len() <= j < params_of(m.kind).len() && !(#[trigger] params_of(
                m.kind,
            )[j]).has_default,
    ensures
        spec_mention_outcome(m, segs, fuel) is Skip,
{
}

/// Every specification the analysis yields derives its identifier from its
/// native code expression; with `lemma_identical_code_identical_id`, two
/// captures of the same instantiation anywhere in the IR text always agree
/// on their identifier.
pub proof fn lemma_analyse_results_wf(t: Seq<char>, fuel: nat)
    ensures
        match spec_analyse(t, fuel) {
            Some(l) => forall|i: int| 0 <= i < l.len() ==> (#[trigger] l[i]).wf(),
            None => true,
        },
    decreases fuel, 5int, 0int,
{
    lemma_analyse_metas_wf(t, crate::meta::spec_metas(), 0, fuel);
}

proof fn lemma_analyse_metas_wf(t: Seq<char>, metas: Seq<MetaModel>, idx: int, fuel: nat)
    ensures
        match spec_analyse_metas(t, metas, idx, fuel) {
            Some(l) => forall|i: int| 0 <= i < l.len() ==> (#[trigger] l[i]).wf(),
            None => true,
        },
    decreases fuel, 4int, metas.len() - idx,
{
    if 0 <= idx < metas.len() {
        lemma_meta_specs_wf(t, metas[idx], fuel);
        lemma_analyse_metas_wf(t, metas, idx + 1, fuel);
    }
}

proof fn lemma_meta_specs_wf(t: Seq<char>, m: MetaModel, fuel: nat)
    ensures
        match spec_meta_specs(t, m, fuel) {
            Some(l) => forall|i: int| 0 <= i < l.len() ==> (#[trigger] l[i]).wf(),
            None => true,
        },
    decreases fuel, 3int, 3int,
{
    specification::lemma_built_specifications_wf(m, seq![]);
    if params_of(m.kind).len() > 0 {
        lemma_mentions_specs_wf(t, m, spec_scan(t, spec_path(m.kind), 0), 0, fuel);
    }
}

proof fn lemma_mentions_specs_wf(
    t: Seq<char>,
    m: MetaModel,
    mentions: Seq<Seq<Seq<char>>>,
    idx: int,
    fuel: nat,
)
    ensures
        match spec_mentions_specs(t, m, mentions, idx, fuel) {
            Some(l) => forall|i: int| 0 <= i < l.len() ==> (#[trigger] l[i]).wf(),
            None => true,
        },
    decreases fuel, 2int, mentions.len() - idx,
{
    if 0 <= idx < mentions.len() {
        lemma_mentions_specs_wf(t, m, mentions, idx + 1, fuel);
        match spec_mention_outcome(m, mentions[idx], fuel) {
            MentionOutcome::Found(s) => {
                match spec_resolve_params(m, mentions[idx], 0, fuel) {
                    Some(ps) => {
                        specification::lemma_built_specifications_wf(m, ps);
                    },
                    None => {},
                }
            },
            _ => {},
        }
    }
}

} // verus!
