//! Verified text utilities: splitting a line into delimited fields,
//! joining fields back, reading decimal integers, and splitting file
//! contents into lines.

use vstd::prelude::*;

verus! {

/// Index of the first occurrence of `sep` in `s`, or -1 if absent.
pub open spec fn spec_find(s: Seq<char>, sep: char) -> int
    decreases s.len(),
{
    if s.len() == 0 {
        -1
    } else if s[0] == sep {
        0
    } else {
        let r = spec_find(s.drop_first(), sep);
        if r == -1 {
            -1
        } else {
            r + 1
        }
    }
}

/// The fields of `s` delimited by `sep`: always at least one field, and
/// a separator at either edge yields an empty field there.
pub open spec fn spec_split(s: Seq<char>, sep: char) -> Seq<Seq<char>>
    decreases s.len(),
{
    let i = spec_find(s, sep);
    if 0 <= i < s.len() {
        seq![s.subrange(0, i)] + spec_split(s.subrange(i + 1, s.len() as int), sep)
    } else {
        seq![s]
    }
}

/// The first occurrence determines `spec_find`.
pub proof fn lemma_find_at(s: Seq<char>, sep: char, k: int)
    requires
        0 <= k < s.len(),
        s[k] == sep,
        forall|j: int| 0 <= j < k ==> s[j] != sep,
    ensures
        spec_find(s, sep) == k,
    decreases s.len(),
{
    if k > 0 {
        lemma_find_at(s.drop_first(), sep, k - 1);
    }
}

proof fn lemma_find_none(s: Seq<char>, sep: char)
    requires
        forall|j: int| 0 <= j < s.len() ==> s[j] != sep,
    ensures
        spec_find(s, sep) == -1,
    decreases s.len(),
{
    if s.len() > 0 {
        lemma_find_none(s.drop_first(), sep);
    }
}

/// The fields of `s`, split at each occurrence of `sep`.
pub fn split_on(s: &str, sep: char) -> (r: Vec<String>)
    ensures
        r@.map_values(|f: String| f@) == spec_split(s@, sep),
        r@.len() >= 1,
{
    let n = s.unicode_len();
    let mut out: Vec<String> = Vec::new();
    let mut start: usize = 0;
    let mut i: usize = 0;
    proof {
        assert(s@.subrange(0, n as int) =~= s@);
        assert(out@.map_values(|f: String| f@) + spec_split(s@, sep) =~= spec_split(s@, sep));
    }
    while i < n
        invariant
            start <= i <= n,
            n == s@.len(),
            forall|j: int| start <= j < i ==> s@[j] != sep,
            spec_split(s@, sep) == out@.map_values(|f: String| f@) + spec_split(
                s@.subrange(start as int, n as int),
                sep,
            ),
        decreases n - i,
    {
        let c = s.get_char(i);
        if c == sep {
            let field = s.substring_char(start, i).to_owned();
            proof {
                let t = s@.subrange(start as int, n as int);
                assert(t[i - start] == sep);
                assert(forall|j: int| 0 <= j < i - start ==> t[j] != sep);
                lemma_find_at(t, sep, i - start);
                assert(t.subrange(0, i - start) =~= s@.subrange(start as int, i as int));
                assert(t.subrange(i - start + 1, t.len() as int) =~= s@.subrange(
                    i + 1,
                    n as int,
                ));
                assert(out@.push(field).map_values(|f: String| f@) =~= out@.map_values(
                    |f: String| f@,
                ).push(field@));
            }
            out.push(field);
            start = i + 1;
        }
        i += 1;
    }
    let field = s.substring_char(start, n).to_owned();
    proof {
        let t = s@.subrange(start as int, n as int);
        lemma_find_none(t, sep);
        assert(out@.push(field).map_values(|f: String| f@) =~= out@.map_values(
            |f: String| f@,
        ).push(field@));
        assert(spec_split(s@, sep) =~= out@.map_values(|f: String| f@) + seq![t]);
    }
    out.push(field);
    out
}

/// The fields joined back with `sep` between consecutive fields.
pub open spec fn spec_join(fs: Seq<Seq<char>>, sep: char) -> Seq<char>
    decreases fs.len(),
{
    if fs.len() == 0 {
        Seq::empty()
    } else if fs.len() == 1 {
        fs[0]
    } else {
        fs[0] + seq![sep] + spec_join(fs.drop_first(), sep)
    }
}

proof fn lemma_join_push(fs: Seq<Seq<char>>, f: Seq<char>, sep: char)
    ensures
        fs.len() == 0 ==> spec_join(fs.push(f), sep) == f,
        fs.len() > 0 ==> spec_join(fs.push(f), sep) == spec_join(fs, sep) + seq![sep] + f,
    decreases fs.len(),
{
    if fs.len() == 0 {
        assert(fs.push(f)[0] =~= f);
    } else if fs.len() == 1 {
        assert(fs.push(f).drop_first() =~= seq![f]);
        assert(spec_join(seq![f], sep) == f);
    } else {
        lemma_join_push(fs.drop_first(), f, sep);
        assert(fs.push(f).drop_first() =~= fs.drop_first().push(f));
    }
}

/// Joins `fields` with the one-character separator `sep` between
/// consecutive fields.
pub fn join_with(fields: &Vec<String>, sep: &str) -> (r: String)
    requires
        sep@.len() == 1,
    ensures
        r@ == spec_join(fields@.map_values(|f: String| f@), sep@[0]),
{
    let ghost sep_char = sep@[0];
    let ghost views = fields@.map_values(|f: String| f@);
    let mut out = String::new();
    let mut i: usize = 0;
    while i < fields.len()
        invariant
            i <= fields@.len(),
            sep@.len() == 1,
            sep_char == sep@[0],
            views == fields@.map_values(|f: String| f@),
            out@ == spec_join(views.subrange(0, i as int), sep_char),
        decreases fields@.len() - i,
    {
        proof {
            lemma_join_push(views.subrange(0, i as int), views[i as int], sep_char);
            assert(views.subrange(0, i as int).push(views[i as int]) =~= views.subrange(
                0,
                i + 1,
            ));
            assert(seq![sep_char] =~= sep@);
        }
        if i > 0 {
            out.append(sep);
        }
        out.append(fields[i].as_str());
        i += 1;
    }
    proof {
        assert(views.subrange(0, views.len() as int) =~= views);
    }
    out
}

/// Whether `c` is a decimal digit.
pub open spec fn spec_is_digit(c: char) -> bool {
    48 <= c as u32 <= 57
}

/// The numeric value of digit `c`.
pub open spec fn spec_digit(c: char) -> nat {
    (c as u32 - 48) as nat
}

/// Whether `s` consists of decimal digits only.
pub open spec fn spec_all_digits(s: Seq<char>) -> bool {
    forall|i: int| 0 <= i < s.len() ==> spec_is_digit(#[trigger] s[i])
}

/// The value of `s` read as a decimal numeral.
pub open spec fn spec_num_value(s: Seq<char>) -> nat
    decreases s.len(),
{
    if s.len() == 0 {
        0
    } else {
        spec_num_value(s.drop_last()) * 10 + spec_digit(s.last())
    }
}

/// A numeral's value never shrinks as more digits follow it.
proof fn lemma_num_value_prefix_le(s: Seq<char>, k: int)
    requires
        0 <= k <= s.len(),
    ensures
        spec_num_value(s.subrange(0, k)) <= spec_num_value(s),
    decreases s.len() - k,
{
    if k < s.len() {
        lemma_num_value_prefix_le(s, k + 1);
        let p = s.subrange(0, k + 1);
        assert(p.drop_last() =~= s.subrange(0, k));
        assert(spec_num_value(s.subrange(0, k)) <= spec_num_value(p));
    } else {
        assert(s.subrange(0, k) =~= s);
    }
}

/// Reads `s` as a decimal `usize`. Returns the numeral's value exactly
/// when `s` is nonempty, all digits, and the value fits the machine;
/// `None` otherwise.
pub fn parse_usize(s: &str) -> (r: Option<usize>)
    ensures
        r is Some <==> (s@.len() > 0 && spec_all_digits(s@) && spec_num_value(s@)
            <= usize::MAX),
        r is Some ==> r->Some_0 == spec_num_value(s@),
{
    let n = s.unicode_len();
    if n == 0 {
        return None;
    }
    let mut acc: usize = 0;
    let mut i: usize = 0;
    while i < n
        invariant
            i <= n,
            n == s@.len(),
            spec_all_digits(s@.subrange(0, i as int)),
            acc == spec_num_value(s@.subrange(0, i as int)),
        decreases n - i,
    {
        let c = s.get_char(i);
        let u = c as u32;
        if !(48 <= u && u <= 57) {
            assert(!spec_is_digit(s@[i as int]));
            return None;
        }
        let d = (u - 48) as usize;
        proof {
            let p = s@.subrange(0, i + 1);
            assert(p.drop_last() =~= s@.subrange(0, i as int));
            assert(p.last() == s@[i as int]);
        }
        let acc10 = match acc.checked_mul(10) {
            Some(v) => v,
            None => {
                proof {
                    lemma_num_value_prefix_le(s@, i + 1);
                }
                return None;
            },
        };
        acc = match acc10.checked_add(d) {
            Some(v) => v,
            None => {
                proof {
                    lemma_num_value_prefix_le(s@, i + 1);
                }
                return None;
            },
        };
        i += 1;
    }
    proof {
        assert(s@.subrange(0, n as int) =~= s@);
    }
    Some(acc)
}

/// The characters of `s`, one per element.
pub fn chars_of(s: &str) -> (r: Vec<char>)
    ensures
        r@ == s@,
{
    let n = s.unicode_len();
    let mut v: Vec<char> = Vec::new();
    let mut i: usize = 0;
    while i < n
        invariant
            i <= n,
            n == s@.len(),
            v@ == s@.subrange(0, i as int),
        decreases n - i,
    {
        let c = s.get_char(i);
        proof {
            assert(v@.push(c) =~= s@.subrange(0, i + 1));
        }
        v.push(c);
        i += 1;
    }
    proof {
        assert(s@.subrange(0, n as int) =~= s@);
    }
    v
}

/// A copy of a vector of copyable values.
pub fn copy_vec<T: Copy>(xs: &Vec<T>) -> (r: Vec<T>)
    ensures
        r@ == xs@,
{
    let mut out: Vec<T> = Vec::new();
    let mut i: usize = 0;
    while i < xs.len()
        invariant
            i <= xs@.len(),
            out@ == xs@.subrange(0, i as int),
        decreases xs@.len() - i,
    {
        proof {
            assert(out@.push(xs@[i as int]) =~= xs@.subrange(0, i + 1));
        }
        out.push(xs[i]);
        i += 1;
    }
    proof {
        assert(xs@.subrange(0, xs@.len() as int) =~= xs@);
    }
    out
}

/// Whether two strings hold the same characters.
pub fn str_eq(a: &str, b: &str) -> (r: bool)
    ensures
        r == (a@ == b@),
{
    let n = a.unicode_len();
    let m = b.unicode_len();
    if n != m {
        return false;
    }
    let mut i: usize = 0;
    while i < n
        invariant
            i <= n,
            n == a@.len(),
            n == b@.len(),
            forall|j: int| 0 <= j < i ==> a@[j] == b@[j],
        decreases n - i,
    {
        if a.get_char(i) != b.get_char(i) {
            return false;
        }
        i += 1;
    }
    proof {
        assert(a@ =~= b@);
    }
    true
}

/// A trailing carriage return stripped, as the line-based input format
/// tolerates Windows line endings.
pub open spec fn spec_strip_cr(s: Seq<char>) -> Seq<char> {
    if s.len() > 0 && s.last() == '\r' {
        s.drop_last()
    } else {
        s
    }
}

/// The lines of `s`: split at each newline, a final newline ending the
/// last line rather than opening an empty one, and a carriage return
/// before any newline dropped.
pub open spec fn spec_lines(s: Seq<char>) -> Seq<Seq<char>> {
    if s.len() == 0 {
        Seq::empty()
    } else {
        let t = if s.last() == '\n' {
            s.drop_last()
        } else {
            s
        };
        spec_split(t, '\n').map_values(|l: Seq<char>| spec_strip_cr(l))
    }
}

/// Splits `s` into lines.
pub fn split_lines(s: &str) -> (r: Vec<String>)
    ensures
        r@.map_values(|l: String| l@) == spec_lines(s@),
{
    let n = s.unicode_len();
    if n == 0 {
        let r: Vec<String> = Vec::new();
        proof {
            assert(r@.map_values(|l: String| l@) =~= spec_lines(s@));
        }
        return r;
    }
    let t: &str = if s.get_char(n - 1) == '\n' {
        s.substring_char(0, n - 1)
    } else {
        s
    };
    proof {
        if s@.last() == '\n' {
            assert(s@.subrange(0, n - 1) =~= s@.drop_last());
        }
    }
    let raw = split_on(t, '\n');
    let mut out: Vec<String> = Vec::new();
    let mut i: usize = 0;
    let ghost raw_views = raw@.map_values(|f: String| f@);
    while i < raw.len()
        invariant
            i <= raw@.len(),
            raw_views == raw@.map_values(|f: String| f@),
            out@.map_values(|l: String| l@) =~= raw_views.subrange(0, i as int).map_values(
                |l: Seq<char>| spec_strip_cr(l),
            ),
        decreases raw@.len() - i,
    {
        let line = &raw[i];
        let m = line.unicode_len();
        let stripped: String = if m > 0 && line.as_str().get_char(m - 1) == '\r' {
            let v = line.as_str().substring_char(0, m - 1).to_owned();
            proof {
                assert(line@.subrange(0, m - 1) =~= line@.drop_last());
            }
            v
        } else {
            line.clone()
        };
        proof {
            assert(stripped@ == spec_strip_cr(raw_views[i as int]));
            assert(out@.push(stripped).map_values(|l: String| l@) =~= out@.map_values(
                |l: String| l@,
            ).push(stripped@));
            assert(raw_views.subrange(0, i as int).map_values(
                |l: Seq<char>| spec_strip_cr(l),
            ).push(spec_strip_cr(raw_views[i as int])) =~= raw_views.subrange(
                0,
                i + 1,
            ).map_values(|l: Seq<char>| spec_strip_cr(l)));
        }
        out.push(stripped);
        i += 1;
    }
    proof {
        assert(raw_views.subrange(0, raw_views.len() as int) =~= raw_views);
    }
    out
}

} // verus!
