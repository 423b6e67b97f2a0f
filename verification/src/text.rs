//! Verified text utilities: substring search, trimming, joining,
//! splitting and literal replacement over `&str` and `String` values.

use vstd::prelude::*;

verus! {

/// The pattern `p` occurs in `t` starting at position `i`.
pub open spec fn occurs_at(t: Seq<char>, p: Seq<char>, i: int) -> bool {
    0 <= i && i + p.len() <= t.len() && t.subrange(i, i + p.len() as int) == p
}

/// Position of the first occurrence of `p` in `t` at or after `from`.
pub open spec fn find_first(t: Seq<char>, p: Seq<char>, from: int) -> Option<int>
    decreases t.len() + 1 - from,
{
    if from < 0 || from + p.len() > t.len() {
        None
    } else if t.subrange(from, from + p.len() as int) == p {
        Some(from)
    } else {
        find_first(t, p, from + 1)
    }
}

/// `find_first` returns exactly the least occurrence position at or after `from`.
pub proof fn lemma_find_first_characterization(t: Seq<char>, p: Seq<char>, from: int)
    requires
        0 <= from,
    ensures
        match find_first(t, p, from) {
            Some(i) => from <= i && occurs_at(t, p, i) && forall|j: int|
                from <= j < i ==> !occurs_at(t, p, j),
            None => forall|j: int| from <= j ==> !occurs_at(t, p, j),
        },
    decreases t.len() + 1 - from,
{
    if from + p.len() > t.len() {
        assert forall|j: int| from <= j implies !occurs_at(t, p, j) by {}
    } else if t.subrange(from, from + p.len() as int) == p {
    } else {
        lemma_find_first_characterization(t, p, from + 1);
    }
}

/// Compare `t[i..i + p.len()]` with `p`.
pub fn occurs_at_exec(t: &str, p: &str, i: usize) -> (r: bool)
    requires
        i + p@.len() <= t@.len(),
    ensures
        r == occurs_at(t@, p@, i as int),
{
    let t_len = t.unicode_len();
    let p_len = p.unicode_len();
    let mut k: usize = 0;
    while k < p_len
        invariant
            0 <= k <= p_len,
            p_len == p@.len(),
            t_len == t@.len(),
            i + p@.len() <= t@.len(),
            forall|m: int| 0 <= m < k ==> t@[i + m] == p@[m],
        decreases p_len - k,
    {
        if t.get_char(i + k) != p.get_char(k) {
            assert(t@.subrange(i as int, i + p@.len() as int)[k as int] != p@[k as int]);
            return false;
        }
        k += 1;
    }
    assert(t@.subrange(i as int, i + p@.len() as int) =~= p@);
    true
}

/// Find the first occurrence of `p` in `t` at or after `from`.
pub fn find_from(t: &str, p: &str, from: usize) -> (r: Option<usize>)
    ensures
        match r {
            Some(i) => from <= i && Some(i as int) == find_first(t@, p@, from as int),
            None => find_first(t@, p@, from as int) is None,
        },
{
    let t_len = t.unicode_len();
    let p_len = p.unicode_len();
    if from > t_len || p_len > t_len - from {
        proof {
            lemma_find_first_none(t@, p@, from as int);
        }
        return None;
    }
    if p_len == 0 {
        proof {
            assert(t@.subrange(from as int, from as int) =~= p@);
        }
        return Some(from);
    }
    let mut i: usize = from;
    while i <= t_len - p_len
        invariant
            from <= i,
            t_len == t@.len(),
            p_len == p@.len(),
            0 < p_len <= t_len,
            i <= t_len - p_len + 1,
            find_first(t@, p@, from as int) == find_first(t@, p@, i as int),
        decreases t_len + 1 - i,
    {
        if occurs_at_exec(t, p, i) {
            assert(t@.subrange(i as int, i + p@.len() as int) == p@);
            return Some(i);
        }
        assert(t@.subrange(i as int, i + p@.len() as int) != p@);
        i += 1;
    }
    proof {
        lemma_find_first_none(t@, p@, i as int);
    }
    None
}

proof fn lemma_find_first_none(t: Seq<char>, p: Seq<char>, from: int)
    requires
        from + p.len() > t.len() || from < 0,
    ensures
        find_first(t, p, from) is None,
{
}

/// Finding in a suffix is finding after the suffix's start, shifted.
proof fn lemma_find_first_shift(t: Seq<char>, p: Seq<char>, pos: int, from: int)
    requires
        0 <= pos <= t.len(),
        0 <= from,
    ensures
        match find_first(t, p, pos + from) {
            Some(i) => find_first(t.skip(pos), p, from) == Some(i - pos),
            None => find_first(t.skip(pos), p, from) is None,
        },
    decreases t.len() + 1 - from - pos,
{
    if pos + from + p.len() > t.len() {
    } else {
        assert(t.skip(pos).subrange(from, from + p.len() as int) =~= t.subrange(
            pos + from,
            pos + from + p.len() as int,
        ));
        if t.subrange(pos + from, pos + from + p.len() as int) == p {
        } else {
            lemma_find_first_shift(t, p, pos, from + 1);
        }
    }
}

/// Whether two string slices hold the same characters.
pub fn eq_str(a: &str, b: &str) -> (r: bool)
    ensures
        r == (a@ == b@),
{
    let a_len = a.unicode_len();
    let b_len = b.unicode_len();
    if a_len != b_len {
        return false;
    }
    let r = occurs_at_exec(a, b, 0);
    proof {
        assert(a@.subrange(0, a@.len() as int) =~= a@);
    }
    r
}

/// Whether `t` starts with `p`.
pub fn starts_with(t: &str, p: &str) -> (r: bool)
    ensures
        r == (p@.len() <= t@.len() && t@.subrange(0, p@.len() as int) == p@),
{
    let t_len = t.unicode_len();
    let p_len = p.unicode_len();
    if p_len > t_len {
        return false;
    }
    occurs_at_exec(t, p, 0)
}

/// The characters of `s` between `from` and `to`, as an owned string.
pub fn substring(s: &str, from: usize, to: usize) -> (r: String)
    requires
        from <= to <= s@.len(),
    ensures
        r@ == s@.subrange(from as int, to as int),
{
    s.substring_char(from, to).to_owned()
}

/// Concatenate two string slices.
pub fn concat2(a: &str, b: &str) -> (r: String)
    ensures
        r@ == a@ + b@,
{
    let mut r = a.to_owned();
    r.append(b);
    r
}

/// Concatenate three string slices.
pub fn concat3(a: &str, b: &str, c: &str) -> (r: String)
    ensures
        r@ == a@ + b@ + c@,
{
    let mut r = a.to_owned();
    r.append(b);
    r.append(c);
    r
}

/// `parts` joined by the separator `sep`.
pub open spec fn join_with(parts: Seq<Seq<char>>, sep: Seq<char>) -> Seq<char>
    decreases parts.len(),
{
    if parts.len() == 0 {
        seq![]
    } else if parts.len() == 1 {
        parts[0]
    } else {
        parts[0] + sep + join_with(parts.drop_first(), sep)
    }
}

/// Appending one part to a join appends a separator and the part.
pub proof fn lemma_join_push(parts: Seq<Seq<char>>, sep: Seq<char>, last: Seq<char>)
    ensures
        join_with(parts.push(last), sep) == if parts.len() == 0 {
            last
        } else {
            join_with(parts, sep) + sep + last
        },
    decreases parts.len(),
{
    if parts.len() == 0 {
        assert(parts.push(last).len() == 1);
        assert(parts.push(last)[0] == last);
    } else if parts.len() == 1 {
        assert(parts.push(last).drop_first() =~= seq![last]);
        assert(join_with(seq![last], sep) == last);
        assert(parts.push(last)[0] == parts[0]);
        assert(join_with(parts.push(last), sep) == parts[0] + sep + last);
    } else {
        assert(parts.push(last).drop_first() =~= parts.drop_first().push(last));
        lemma_join_push(parts.drop_first(), sep, last);
        assert(join_with(parts.push(last), sep) == parts[0] + sep + join_with(
            parts.drop_first().push(last),
            sep,
        ));
        assert(join_with(parts, sep) + sep + last == (parts[0] + sep + join_with(
            parts.drop_first(),
            sep,
        )) + sep + last);
        assert(parts[0] + sep + (join_with(parts.drop_first(), sep) + sep + last) =~= (parts[0]
            + sep + join_with(parts.drop_first(), sep)) + sep + last);
    }
}

/// Join the strings in `parts` with the separator `sep`.
pub fn join_strings(parts: &Vec<String>, sep: &str) -> (r: String)
    ensures
        r@ == join_with(parts.deep_view(), sep@),
{
    let mut r = String::new();
    let mut i: usize = 0;
    while i < parts.len()
        invariant
            0 <= i <= parts@.len(),
            parts.deep_view().len() == parts@.len(),
            forall|j: int| 0 <= j < parts@.len() ==> parts.deep_view()[j] == parts@[j]@,
            r@ == join_with(parts.deep_view().take(i as int), sep@),
        decreases parts@.len() - i,
    {
        if i > 0 {
            r.append(sep);
        }
        r.append(parts[i].as_str());
        proof {
            let dv = parts.deep_view();
            assert(dv.take(i + 1).drop_last() =~= dv.take(i as int));
            assert(dv.take(i + 1).last() == dv[i as int]);
            lemma_join_push(dv.take(i as int), sep@, dv[i as int]);
            assert(dv.take(i + 1) == dv.take(i as int).push(dv[i as int]));
        }
        i += 1;
    }
    proof {
        assert(parts.deep_view().take(parts@.len() as int) =~= parts.deep_view());
    }
    r
}

/// Whitespace as the matcher and the substitution engine treat it.
pub open spec fn is_space_char(c: char) -> bool {
    c == ' ' || c == '\t' || c == '\r' || c == '\n'
}

/// `s` without leading whitespace.
pub open spec fn trim_front(s: Seq<char>) -> Seq<char>
    decreases s.len(),
{
    if s.len() > 0 && is_space_char(s[0]) {
        trim_front(s.drop_first())
    } else {
        s
    }
}

/// `s` without trailing whitespace.
pub open spec fn trim_back(s: Seq<char>) -> Seq<char>
    decreases s.len(),
{
    if s.len() > 0 && is_space_char(s[s.len() - 1]) {
        trim_back(s.drop_last())
    } else {
        s
    }
}

/// `s` without leading and trailing whitespace.
pub open spec fn trim_seq(s: Seq<char>) -> Seq<char> {
    trim_back(trim_front(s))
}

/// Whether the character of `s` at `i` is whitespace.
pub fn space_at(s: &str, i: usize) -> (r: bool)
    requires
        i < s@.len(),
    ensures
        r == is_space_char(s@[i as int]),
{
    let c = s.get_char(i);
    c == ' ' || c == '\t' || c == '\r' || c == '\n'
}

/// The characters of `s` between `from` and `to`, without surrounding
/// whitespace, as an owned string.
pub fn trimmed_substring(s: &str, from: usize, to: usize) -> (r: String)
    requires
        from <= to <= s@.len(),
    ensures
        r@ == trim_seq(s@.subrange(from as int, to as int)),
{
    let mut a = from;
    let mut b = to;
    while a < b && space_at(s, a)
        invariant
            from <= a <= b <= to <= s@.len(),
            b == to,
            trim_front(s@.subrange(from as int, to as int)) == trim_front(
                s@.subrange(a as int, b as int),
            ),
        decreases b - a,
    {
        proof {
            assert(s@.subrange(a as int, b as int).drop_first() =~= s@.subrange(a + 1, b as int));
        }
        a += 1;
    }
    proof {
        if a == b {
            assert(s@.subrange(a as int, b as int) =~= Seq::<char>::empty());
        }
        assert(trim_front(s@.subrange(from as int, to as int)) == s@.subrange(a as int, b as int));
    }
    while b > a && space_at(s, b - 1)
        invariant
            from <= a <= b <= to <= s@.len(),
            trim_seq(s@.subrange(from as int, to as int)) == trim_back(
                s@.subrange(a as int, b as int),
            ),
        decreases b - a,
    {
        proof {
            assert(s@.subrange(a as int, b as int).drop_last() =~= s@.subrange(a as int, b - 1));
        }
        b -= 1;
    }
    proof {
        if a == b {
            assert(s@.subrange(a as int, b as int) =~= Seq::<char>::empty());
        }
        assert(trim_back(s@.subrange(a as int, b as int)) == s@.subrange(a as int, b as int));
    }
    substring(s, a, b)
}

/// Every occurrence of `from` in `s` replaced by `to`, scanning left to
/// right over non-overlapping occurrences.
pub open spec fn replace_all(s: Seq<char>, from: Seq<char>, to: Seq<char>) -> Seq<char>
    decreases s.len(),
    when from.len() > 0
    via replace_all_decreases
{
    match find_first(s, from, 0) {
        None => s,
        Some(i) => s.take(i) + to + replace_all(s.skip(i + from.len() as int), from, to),
    }
}

#[via_fn]
proof fn replace_all_decreases(s: Seq<char>, from: Seq<char>, to: Seq<char>) {
    lemma_find_first_characterization(s, from, 0);
}

/// Replace every occurrence of `from` in `s` by `to`.
pub fn replace_str(s: &str, from: &str, to: &str) -> (r: String)
    requires
        from@.len() > 0,
    ensures
        r@ == replace_all(s@, from@, to@),
{
    let s_len = s.unicode_len();
    let mut out = String::new();
    let mut pos: usize = 0;
    proof {
        assert(s@.skip(0) =~= s@);
        assert(out@ + replace_all(s@, from@, to@) =~= replace_all(s@, from@, to@));
    }
    loop
        invariant
            0 <= pos <= s_len,
            s_len == s@.len(),
            from@.len() > 0,
            replace_all(s@, from@, to@) == out@ + replace_all(s@.skip(pos as int), from@, to@),
        decreases s_len - pos,
    {
        let ghost prev = out@;
        let ghost tail = s@.skip(pos as int);
        match find_from(s, from, pos) {
            Some(i) => {
                proof {
                    lemma_find_first_shift(s@, from@, pos as int, 0);
                    lemma_find_first_characterization(s@, from@, pos as int);
                    assert(find_first(tail, from@, 0) == Some(i - pos));
                    assert(occurs_at(s@, from@, i as int));
                }
                let piece = substring(s, pos, i);
                out.append(piece.as_str());
                out.append(to);
                proof {
                    assert(tail.take(i - pos) =~= s@.subrange(pos as int, i as int));
                    assert(tail.skip(i - pos + from@.len()) =~= s@.skip(i + from@.len()));
                    assert(replace_all(tail, from@, to@) == tail.take(i - pos) + to@ + replace_all(
                        s@.skip(i + from@.len()),
                        from@,
                        to@,
                    ));
                    assert(prev + replace_all(tail, from@, to@) =~= out@ + replace_all(
                        s@.skip(i + from@.len()),
                        from@,
                        to@,
                    ));
                }
                pos = i + from.unicode_len();
            },
            None => {
                proof {
                    lemma_find_first_shift(s@, from@, pos as int, 0);
                    assert(find_first(tail, from@, 0) is None);
                }
                let piece = substring(s, pos, s_len);
                out.append(piece.as_str());
                proof {
                    assert(s@.subrange(pos as int, s@.len() as int) =~= tail);
                    assert(replace_all(tail, from@, to@) == tail);
                }
                return out;
            },
        }
    }
}

/// `s` cut at every newline character; the separators are not kept.
pub open spec fn split_lines(s: Seq<char>) -> Seq<Seq<char>>
    decreases s.len(),
    via split_lines_decreases
{
    match find_first(s, seq!['\n'], 0) {
        None => seq![s],
        Some(i) => seq![s.take(i)] + split_lines(s.skip(i + 1)),
    }
}

#[via_fn]
proof fn split_lines_decreases(s: Seq<char>) {
    lemma_find_first_characterization(s, seq!['\n'], 0);
}

/// Split `s` at newline characters.
pub fn split_lines_exec(s: &str) -> (r: Vec<String>)
    ensures
        r.deep_view() == split_lines(s@),
{
    let s_len = s.unicode_len();
    let mut out: Vec<String> = Vec::new();
    let mut pos: usize = 0;
    let nl = "\n";
    proof {
        reveal_strlit("\n");
        assert(nl@ =~= seq!['\n']);
        assert(s@.skip(0) =~= s@);
        assert(out.deep_view() =~= Seq::<Seq<char>>::empty());
        assert(out.deep_view() + split_lines(s@) =~= split_lines(s@));
    }
    loop
        invariant
            0 <= pos <= s_len,
            s_len == s@.len(),
            nl@ == seq!['\n'],
            split_lines(s@) == out.deep_view() + split_lines(s@.skip(pos as int)),
        decreases s_len + 1 - pos,
    {
        let ghost prev = out.deep_view();
        let ghost tail = s@.skip(pos as int);
        match find_from(s, nl, pos) {
            Some(i) => {
                proof {
                    lemma_find_first_shift(s@, nl@, pos as int, 0);
                    lemma_find_first_characterization(s@, nl@, pos as int);
                    assert(find_first(tail, nl@, 0) == Some(i - pos));
                    assert(occurs_at(s@, nl@, i as int));
                }
                let piece = substring(s, pos, i);
                out.push(piece);
                proof {
                    assert(tail.take(i - pos) =~= s@.subrange(pos as int, i as int));
                    assert(tail.skip(i - pos + 1) =~= s@.skip(i + 1));
                    assert(split_lines(tail) == seq![tail.take(i - pos)] + split_lines(
                        s@.skip(i + 1),
                    ));
                    assert(out.deep_view() =~= prev.push(s@.subrange(pos as int, i as int)));
                    assert(prev + split_lines(tail) =~= out.deep_view() + split_lines(
                        s@.skip(i + 1),
                    ));
                }
                pos = i + 1;
            },
            None => {
                proof {
                    lemma_find_first_shift(s@, nl@, pos as int, 0);
                    assert(find_first(tail, nl@, 0) is None);
                }
                let piece = substring(s, pos, s_len);
                out.push(piece);
                proof {
                    assert(s@.subrange(pos as int, s@.len() as int) =~= tail);
                    assert(split_lines(tail) == seq![tail]);
                    assert(out.deep_view() =~= prev.push(tail));
                    assert(prev + split_lines(tail) =~= out.deep_view());
                }
                return out;
            },
        }
    }
}

/// The decimal digit characters of `n`.
pub open spec fn decimal_digits(n: nat) -> Seq<char>
    decreases n,
{
    if n < 10 {
        seq![digit_char(n)]
    } else {
        decimal_digits(n / 10) + seq![digit_char(n % 10)]
    }
}

/// The character for a single decimal digit.
pub open spec fn digit_char(d: nat) -> char {
    if d == 0 {
        '0'
    } else if d == 1 {
        '1'
    } else if d == 2 {
        '2'
    } else if d == 3 {
        '3'
    } else if d == 4 {
        '4'
    } else if d == 5 {
        '5'
    } else if d == 6 {
        '6'
    } else if d == 7 {
        '7'
    } else if d == 8 {
        '8'
    } else {
        '9'
    }
}

fn digit_str(d: usize) -> (r: &'static str)
    requires
        d < 10,
    ensures
        r@ == seq![digit_char(d as nat)],
{
    proof {
        reveal_strlit("0");
        reveal_strlit("1");
        reveal_strlit("2");
        reveal_strlit("3");
        reveal_strlit("4");
        reveal_strlit("5");
        reveal_strlit("6");
        reveal_strlit("7");
        reveal_strlit("8");
        reveal_strlit("9");
    }
    match d {
        0 => "0",
        1 => "1",
        2 => "2",
        3 => "3",
        4 => "4",
        5 => "5",
        6 => "6",
        7 => "7",
        8 => "8",
        _ => "9",
    }
}

/// Render `n` in decimal.
pub fn format_usize(n: usize) -> (r: String)
    ensures
        r@ == decimal_digits(n as nat),
    decreases n,
{
    if n < 10 {
        digit_str(n).to_owned()
    } else {
        let mut r = format_usize(n / 10);
        r.append(digit_str(n % 10));
        r
    }
}

} // verus!

