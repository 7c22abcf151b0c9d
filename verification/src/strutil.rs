//! Character-sequence helpers shared by the parser, matcher and serializer:
//! splitting on a separator, joining, trimming NUL padding, case folding and
//! decimal rendering, all specified over `Seq<char>` views.
use vstd::prelude::*;

verus! {

/// The pieces of `s` lying between the non-overlapping occurrences of `sep`,
/// scanned left to right.  Mirrors Rust's `str::split` on a non-empty
/// separator: the result always holds at least one piece, and an occurrence
/// at the very start or end contributes an empty piece.
pub open spec fn split_on(s: Seq<char>, sep: Seq<char>) -> Seq<Seq<char>>
    decreases s.len(),
{
    if sep.len() == 0 || s.len() < sep.len() {
        seq![s]
    } else if s.subrange(0, sep.len() as int) == sep {
        seq![Seq::<char>::empty()] + split_on(s.subrange(sep.len() as int, s.len() as int), sep)
    } else {
        let rest = split_on(s.subrange(1, s.len() as int), sep);
        seq![seq![s[0]] + rest[0]] + rest.subrange(1, rest.len() as int)
    }
}

pub proof fn lemma_split_on_len(s: Seq<char>, sep: Seq<char>)
    ensures
        split_on(s, sep).len() >= 1,
    decreases s.len(),
{
    if sep.len() == 0 || s.len() < sep.len() {
    } else if s.subrange(0, sep.len() as int) == sep {
        lemma_split_on_len(s.subrange(sep.len() as int, s.len() as int), sep);
    } else {
        lemma_split_on_len(s.subrange(1, s.len() as int), sep);
    }
}

/// Character-wise equality of two string slices.
pub fn str_eq(a: &str, b: &str) -> (r: bool)
    ensures
        r == (a@ == b@),
{
    let n = a.unicode_len();
    if n != b.unicode_len() {
        return false;
    }
    let mut i: usize = 0;
    while i < n
        invariant
            i <= n,
            n == a@.len(),
            n == b@.len(),
            forall|j: int| 0 <= j < i ==> a@[j] == b@[j],
        decreases n - i,
    {
        if a.get_char(i) != b.get_char(i) {
            return false;
        }
        i += 1;
    }
    proof {
        assert(a@ =~= b@);
    }
    true
}

/// Whether `sep` occurs in `s` starting at position `i`.
fn matches_at(s: &str, i: usize, sep: &str) -> (r: bool)
    requires
        i <= s@.len(),
    ensures
        r == (i + sep@.len() <= s@.len() && s@.subrange(
            i as int,
            i as int + sep@.len() as int,
        ) == sep@),
{
    let n = s.unicode_len();
    let m = sep.unicode_len();
    if m > n - i {
        return false;
    }
    let mut j: usize = 0;
    while j < m
        invariant
            j <= m,
            i + m <= n,
            n == s@.len(),
            m == sep@.len(),
            forall|k: int| 0 <= k < j ==> s@[i + k] == sep@[k],
        decreases m - j,
    {
        if s.get_char(i + j) != sep.get_char(j) {
            proof {
                let sub = s@.subrange(i as int, i as int + sep@.len() as int);
                assert(sub[j as int] != sep@[j as int]);
            }
            return false;
        }
        j += 1;
    }
    proof {
        assert(s@.subrange(i as int, i as int + sep@.len() as int) =~= sep@);
    }
    true
}

/// Splits `s` on every occurrence of the non-empty separator `sep`,
/// returning the pieces as owned strings.
pub fn split_str(s: &str, sep: &str) -> (parts: Vec<String>)
    requires
        sep@.len() > 0,
    ensures
        parts.deep_view() == split_on(s@, sep@),
{
    let n = s.unicode_len();
    let sep_len = sep.unicode_len();
    let mut parts: Vec<String> = Vec::new();
    let mut cur = String::new();
    let mut i: usize = 0;
    proof {
        lemma_split_on_len(s@, sep@);
        let whole = split_on(s@, sep@);
        assert(s@.subrange(0, n as int) =~= s@);
        assert(parts.deep_view() =~= Seq::<Seq<char>>::empty());
        assert(cur@ + whole[0] =~= whole[0]);
        assert(whole =~= parts.deep_view() + seq![cur@ + whole[0]] + whole.subrange(
            1,
            whole.len() as int,
        ));
    }
    while i < n
        invariant
            i <= n,
            n == s@.len(),
            sep_len == sep@.len(),
            sep@.len() > 0,
            split_on(s@, sep@) == parts.deep_view() + seq![
                cur@ + split_on(s@.subrange(i as int, n as int), sep@)[0],
            ] + split_on(s@.subrange(i as int, n as int), sep@).subrange(
                1,
                split_on(s@.subrange(i as int, n as int), sep@).len() as int,
            ),
        decreases n - i,
    {
        let ghost rem = s@.subrange(i as int, n as int);
        proof {
            lemma_split_on_len(rem, sep@);
        }
        if matches_at(s, i, sep) {
            let ghost rem2 = s@.subrange(i as int + sep@.len() as int, n as int);
            let ghost parts_prev = parts.deep_view();
            let ghost cur_prev = cur@;
            proof {
                assert(rem.subrange(0, sep@.len() as int) =~= s@.subrange(
                    i as int,
                    i as int + sep@.len() as int,
                ));
                assert(rem.subrange(sep@.len() as int, rem.len() as int) =~= rem2);
                lemma_split_on_len(rem2, sep@);
                // split_on(rem) = [empty] + split_on(rem2)
                assert(split_on(rem, sep@) == seq![Seq::<char>::empty()] + split_on(rem2, sep@));
                assert(cur@ + split_on(rem, sep@)[0] =~= cur@);
                assert(split_on(rem, sep@).subrange(1, split_on(rem, sep@).len() as int)
                    =~= split_on(rem2, sep@));
                // split_on(rem2) = [head] + tail
                assert(split_on(rem2, sep@) =~= seq![split_on(rem2, sep@)[0]] + split_on(
                    rem2,
                    sep@,
                ).subrange(1, split_on(rem2, sep@).len() as int));
            }
            parts.push(cur);
            cur = String::new();
            i = i + sep_len;
            proof {
                assert(parts.deep_view() =~= parts_prev.push(cur_prev));
                assert(s@.subrange(i as int, n as int) == rem2);
                assert(parts.deep_view() + seq![cur@ + split_on(rem2, sep@)[0]] + split_on(
                    rem2,
                    sep@,
                ).subrange(1, split_on(rem2, sep@).len() as int) =~= parts_prev + seq![
                    cur_prev + split_on(rem, sep@)[0],
                ] + split_on(rem, sep@).subrange(1, split_on(rem, sep@).len() as int));
            }
        } else {
            let ghost rem2 = s@.subrange(i as int + 1, n as int);
            let ghost cur_prev = cur@;
            proof {
                lemma_split_on_len(rem2, sep@);
                assert(rem.subrange(1, rem.len() as int) =~= rem2);
                if rem.len() >= sep@.len() {
                    // the separator does not occur at position i
                    assert(rem.subrange(0, sep@.len() as int) =~= s@.subrange(
                        i as int,
                        i as int + sep@.len() as int,
                    ));
                    assert(split_on(rem, sep@) == seq![seq![rem[0]] + split_on(rem2, sep@)[0]]
                        + split_on(rem2, sep@).subrange(1, split_on(rem2, sep@).len() as int));
                } else {
                    // rem is shorter than the separator: one piece, which the
                    // head of split_on(rem2) extends by rem's first character
                    assert(split_on(rem, sep@) == seq![rem]);
                    assert(split_on(rem2, sep@) == seq![rem2]);
                    assert(rem =~= seq![rem[0]] + rem2);
                    assert(split_on(rem, sep@) =~= seq![seq![rem[0]] + split_on(rem2, sep@)[0]]
                        + split_on(rem2, sep@).subrange(1, split_on(rem2, sep@).len() as int));
                }
            }
            let piece = s.substring_char(i, i + 1);
            proof {
                assert(piece@ =~= seq![s@[i as int]]);
            }
            cur.append(piece);
            i = i + 1;
            proof {
                assert(cur@ =~= cur_prev + seq![rem[0]]);
                assert(s@.subrange(i as int, n as int) == rem2);
                assert(cur@ + split_on(rem2, sep@)[0] =~= cur_prev + (seq![rem[0]] + split_on(
                    rem2,
                    sep@,
                )[0]));
            }
        }
    }
    let ghost parts_prev = parts.deep_view();
    let ghost cur_prev = cur@;
    proof {
        let rem = s@.subrange(n as int, n as int);
        assert(rem =~= Seq::<char>::empty());
        assert(split_on(rem, sep@) == seq![Seq::<char>::empty()]);
        assert(cur_prev + split_on(rem, sep@)[0] =~= cur_prev);
        assert(split_on(rem, sep@).subrange(1, 1) =~= Seq::<Seq<char>>::empty());
        assert(split_on(s@, sep@) =~= parts_prev.push(cur_prev));
    }
    parts.push(cur);
    proof {
        assert(parts.deep_view() =~= parts_prev.push(cur_prev));
    }
    parts
}

/// Splitting a sequence that avoids the separator character yields the
/// sequence as its single piece.
pub proof fn lemma_split_char_whole(s: Seq<char>, c: char)
    requires
        forall|i: int| 0 <= i < s.len() ==> s[i] != c,
    ensures
        split_on(s, seq![c]) == seq![s],
    decreases s.len(),
{
    let sep = seq![c];
    if s.len() == 0 {
    } else {
        assert(s.subrange(0, 1) =~= seq![s[0]]);
        let tail = s.subrange(1, s.len() as int);
        lemma_split_char_whole(tail, c);
        let rest = split_on(tail, sep);
        assert(seq![s[0]] + tail =~= s);
        assert(rest.subrange(1, rest.len() as int) =~= Seq::<Seq<char>>::empty());
        assert(split_on(s, sep) =~= seq![s]);
    }
}

/// Splitting `a + [c] + b` where `a` avoids `c` yields `a` as the first
/// piece, followed by the pieces of `b`.
pub proof fn lemma_split_char_prepend(a: Seq<char>, c: char, b: Seq<char>)
    requires
        forall|i: int| 0 <= i < a.len() ==> a[i] != c,
    ensures
        split_on(a + seq![c] + b, seq![c]) == seq![a] + split_on(b, seq![c]),
    decreases a.len(),
{
    let sep = seq![c];
    let s = a + seq![c] + b;
    if a.len() == 0 {
        assert(s.subrange(0, 1) =~= sep);
        assert(s.subrange(1, s.len() as int) =~= b);
        assert(a =~= Seq::<char>::empty());
        assert(split_on(s, sep) =~= seq![a] + split_on(b, sep));
    } else {
        assert(s.len() >= sep.len());
        assert(s[0] == a[0]);
        assert(s.subrange(0, 1) =~= seq![s[0]]);
        let a_tail = a.subrange(1, a.len() as int);
        let s_tail = s.subrange(1, s.len() as int);
        assert(s_tail =~= a_tail + seq![c] + b);
        lemma_split_char_prepend(a_tail, c, b);
        lemma_split_on_len(b, sep);
        let rest = split_on(s_tail, sep);
        assert(rest == seq![a_tail] + split_on(b, sep));
        assert(rest[0] == a_tail);
        assert(seq![s[0]] + rest[0] =~= a);
        assert(rest.subrange(1, rest.len() as int) =~= split_on(b, sep));
        assert(split_on(s, sep) =~= seq![a] + split_on(b, sep));
    }
}

/// The pieces of `parts` concatenated with `sep` between consecutive pieces.
pub open spec fn join_on(parts: Seq<Seq<char>>, sep: Seq<char>) -> Seq<char>
    decreases parts.len(),
{
    if parts.len() == 0 {
        Seq::empty()
    } else if parts.len() == 1 {
        parts[0]
    } else {
        parts[0] + sep + join_on(parts.subrange(1, parts.len() as int), sep)
    }
}

pub proof fn lemma_join_on_push(parts: Seq<Seq<char>>, sep: Seq<char>, x: Seq<char>)
    ensures
        join_on(parts.push(x), sep) == if parts.len() == 0 {
            x
        } else {
            join_on(parts, sep) + sep + x
        },
    decreases parts.len(),
{
    let grown = parts.push(x);
    if parts.len() == 0 {
        assert(grown =~= seq![x]);
    } else {
        let rest = parts.subrange(1, parts.len() as int);
        lemma_join_on_push(rest, sep, x);
        assert(grown.subrange(1, grown.len() as int) =~= rest.push(x));
        if parts.len() == 1 {
            assert(rest.len() == 0);
            assert(join_on(grown, sep) == parts[0] + sep + x);
        } else {
            assert(join_on(grown, sep) == parts[0] + sep + (join_on(rest, sep) + sep + x));
            assert(parts[0] + sep + (join_on(rest, sep) + sep + x) =~= (parts[0] + sep + join_on(
                rest,
                sep,
            )) + sep + x);
        }
    }
}

/// Joins `lines[start..]` with `sep` between consecutive lines.
pub fn join_from(lines: &Vec<String>, start: usize, sep: &str) -> (r: String)
    requires
        start <= lines.len(),
    ensures
        r@ == join_on(lines.deep_view().subrange(start as int, lines.len() as int), sep@),
{
    let n = lines.len();
    let mut r = String::new();
    let mut idx: usize = start;
    if idx < n {
        r.append(lines[idx].as_str());
        idx = idx + 1;
        proof {
            assert(lines.deep_view().subrange(start as int, idx as int) =~= seq![
                lines.deep_view()[start as int],
            ]);
        }
    }
    proof {
        if start == n {
            assert(lines.deep_view().subrange(start as int, idx as int) =~= Seq::<
                Seq<char>,
            >::empty());
        }
    }
    while idx < n
        invariant
            start <= idx <= n,
            n == lines.len(),
            start == n || start < idx,
            r@ == join_on(lines.deep_view().subrange(start as int, idx as int), sep@),
        decreases n - idx,
    {
        let ghost sub = lines.deep_view().subrange(start as int, idx as int);
        r.append(sep);
        r.append(lines[idx].as_str());
        proof {
            lemma_join_on_push(sub, sep@, lines.deep_view()[idx as int]);
            assert(lines.deep_view().subrange(start as int, idx as int + 1) =~= sub.push(
                lines.deep_view()[idx as int],
            ));
        }
        idx = idx + 1;
    }
    r
}

/// `s` with every leading NUL character removed.
pub open spec fn trim_start_nul(s: Seq<char>) -> Seq<char>
    decreases s.len(),
{
    if s.len() > 0 && s[0] == '\u{0}' {
        trim_start_nul(s.subrange(1, s.len() as int))
    } else {
        s
    }
}

/// `s` with every trailing NUL character removed.
pub open spec fn trim_end_nul(s: Seq<char>) -> Seq<char>
    decreases s.len(),
{
    if s.len() > 0 && s[s.len() - 1] == '\u{0}' {
        trim_end_nul(s.subrange(0, s.len() - 1))
    } else {
        s
    }
}

/// `s` with NUL padding stripped from both ends, as a fixed-size read
/// buffer leaves it.
pub open spec fn trim_nul(s: Seq<char>) -> Seq<char> {
    trim_end_nul(trim_start_nul(s))
}

pub proof fn lemma_trim_start_at(s: Seq<char>, k: int)
    requires
        0 <= k <= s.len(),
        forall|j: int| 0 <= j < k ==> s[j] == '\u{0}',
        k == s.len() || s[k] != '\u{0}',
    ensures
        trim_start_nul(s) == s.subrange(k, s.len() as int),
    decreases k,
{
    if k == 0 {
        assert(s.subrange(0, s.len() as int) =~= s);
    } else {
        let tail = s.subrange(1, s.len() as int);
        lemma_trim_start_at(tail, k - 1);
        assert(tail.subrange(k - 1, tail.len() as int) =~= s.subrange(k, s.len() as int));
    }
}

pub proof fn lemma_trim_end_at(s: Seq<char>, k: int)
    requires
        0 <= k <= s.len(),
        forall|j: int| k <= j < s.len() ==> s[j] == '\u{0}',
        k == 0 || s[k - 1] != '\u{0}',
    ensures
        trim_end_nul(s) == s.subrange(0, k),
    decreases s.len(),
{
    if k == s.len() {
        if s.len() > 0 && s[s.len() - 1] == '\u{0}' {
            assert(s[k - 1] != '\u{0}');
        }
        assert(s.subrange(0, s.len() as int) =~= s);
    } else {
        let head = s.subrange(0, s.len() - 1);
        lemma_trim_end_at(head, k);
        assert(head.subrange(0, k) =~= s.subrange(0, k));
    }
}

/// Strips NUL characters from both ends of `s`.
pub fn trim_nul_str(s: &str) -> (r: String)
    ensures
        r@ == trim_nul(s@),
{
    let n = s.unicode_len();
    let mut start: usize = 0;
    while start < n && s.get_char(start) == '\u{0}'
        invariant
            start <= n,
            forall|j: int| 0 <= j < start ==> s@[j] == '\u{0}',
        decreases n - start,
    {
        start = start + 1;
    }
    let mut end: usize = n;
    while end > start && s.get_char(end - 1) == '\u{0}'
        invariant
            start <= end <= n,
            forall|j: int| end <= j < n ==> s@[j] == '\u{0}',
        decreases end,
    {
        end = end - 1;
    }
    let piece = s.substring_char(start, end);
    proof {
        lemma_trim_start_at(s@, start as int);
        let t = s@.subrange(start as int, n as int);
        lemma_trim_end_at(t, end - start);
        assert(t.subrange(0, end - start) =~= s@.subrange(start as int, end as int));
    }
    String::from_str(piece)
}

/// Whether `s` is empty once its NUL padding is stripped.
pub fn is_nul_blank(s: &str) -> (r: bool)
    ensures
        r == (trim_nul(s@).len() == 0),
{
    let t = trim_nul_str(s);
    t.as_str().is_empty()
}

/// `c` with an ASCII lower-case letter folded to its upper-case form.
pub open spec fn upper_char(c: char) -> char {
    if c == 'a' {
        'A'
    } else if c == 'b' {
        'B'
    } else if c == 'c' {
        'C'
    } else if c == 'd' {
        'D'
    } else if c == 'e' {
        'E'
    } else if c == 'f' {
        'F'
    } else if c == 'g' {
        'G'
    } else if c == 'h' {
        'H'
    } else if c == 'i' {
        'I'
    } else if c == 'j' {
        'J'
    } else if c == 'k' {
        'K'
    } else if c == 'l' {
        'L'
    } else if c == 'm' {
        'M'
    } else if c == 'n' {
        'N'
    } else if c == 'o' {
        'O'
    } else if c == 'p' {
        'P'
    } else if c == 'q' {
        'Q'
    } else if c == 'r' {
        'R'
    } else if c == 's' {
        'S'
    } else if c == 't' {
        'T'
    } else if c == 'u' {
        'U'
    } else if c == 'v' {
        'V'
    } else if c == 'w' {
        'W'
    } else if c == 'x' {
        'X'
    } else if c == 'y' {
        'Y'
    } else if c == 'z' {
        'Z'
    } else {
        c
    }
}

/// `s` folded character by character to ASCII upper case.
pub open spec fn upper(s: Seq<char>) -> Seq<char> {
    s.map_values(|c: char| upper_char(c))
}

fn upper_char_exec(c: char) -> (r: char)
    ensures
        r == upper_char(c),
{
    if c == 'a' {
        'A'
    } else if c == 'b' {
        'B'
    } else if c == 'c' {
        'C'
    } else if c == 'd' {
        'D'
    } else if c == 'e' {
        'E'
    } else if c == 'f' {
        'F'
    } else if c == 'g' {
        'G'
    } else if c == 'h' {
        'H'
    } else if c == 'i' {
        'I'
    } else if c == 'j' {
        'J'
    } else if c == 'k' {
        'K'
    } else if c == 'l' {
        'L'
    } else if c == 'm' {
        'M'
    } else if c == 'n' {
        'N'
    } else if c == 'o' {
        'O'
    } else if c == 'p' {
        'P'
    } else if c == 'q' {
        'Q'
    } else if c == 'r' {
        'R'
    } else if c == 's' {
        'S'
    } else if c == 't' {
        'T'
    } else if c == 'u' {
        'U'
    } else if c == 'v' {
        'V'
    } else if c == 'w' {
        'W'
    } else if c == 'x' {
        'X'
    } else if c == 'y' {
        'Y'
    } else if c == 'z' {
        'Z'
    } else {
        c
    }
}

/// Whether `s`, folded to ASCII upper case, equals `t` as written.
pub fn eq_upper(s: &str, t: &str) -> (r: bool)
    ensures
        r == (upper(s@) == t@),
{
    let n = s.unicode_len();
    if n != t.unicode_len() {
        proof {
            assert(upper(s@).len() == s@.len());
        }
        return false;
    }
    let mut i: usize = 0;
    while i < n
        invariant
            i <= n,
            n == s@.len(),
            n == t@.len(),
            forall|j: int| 0 <= j < i ==> upper_char(s@[j]) == t@[j],
        decreases n - i,
    {
        if upper_char_exec(s.get_char(i)) != t.get_char(i) {
            proof {
                assert(upper(s@)[i as int] != t@[i as int]);
            }
            return false;
        }
        i = i + 1;
    }
    proof {
        assert(upper(s@) =~= t@);
    }
    true
}

/// The decimal digit character for `d`.
pub open spec fn dec_digit(d: nat) -> char {
    if d == 0 {
        '0'
    } else if d == 1 {
        '1'
    } else if d == 2 {
        '2'
    } else if d == 3 {
        '3'
    } else if d == 4 {
        '4'
    } else if d == 5 {
        '5'
    } else if d == 6 {
        '6'
    } else if d == 7 {
        '7'
    } else if d == 8 {
        '8'
    } else {
        '9'
    }
}

/// The usual decimal rendering of `n`, without a sign and without leading
/// zeros (except for `n == 0` itself).
pub open spec fn dec_str(n: nat) -> Seq<char>
    decreases n,
{
    if n < 10 {
        seq![dec_digit(n)]
    } else {
        dec_str(n / 10) + seq![dec_digit(n % 10)]
    }
}

fn digit_str(d: u64) -> (r: &'static str)
    requires
        d < 10,
    ensures
        r@ == seq![dec_digit(d as nat)],
{
    let r: &'static str = if d == 0 {
        "0"
    } else if d == 1 {
        "1"
    } else if d == 2 {
        "2"
    } else if d == 3 {
        "3"
    } else if d == 4 {
        "4"
    } else if d == 5 {
        "5"
    } else if d == 6 {
        "6"
    } else if d == 7 {
        "7"
    } else if d == 8 {
        "8"
    } else {
        "9"
    };
    proof {
        reveal_strlit("0");
        reveal_strlit("1");
        reveal_strlit("2");
        reveal_strlit("3");
        reveal_strlit("4");
        reveal_strlit("5");
        reveal_strlit("6");
        reveal_strlit("7");
        reveal_strlit("8");
        reveal_strlit("9");
        assert(r@ =~= seq![dec_digit(d as nat)]);
    }
    r
}

/// Renders `n` in decimal.
pub fn u64_to_dec(n: u64) -> (r: String)
    ensures
        r@ == dec_str(n as nat),
    decreases n,
{
    if n < 10 {
        String::from_str(digit_str(n))
    } else {
        let mut r = u64_to_dec(n / 10);
        r.append(digit_str(n % 10));
        r
    }
}

} // verus!
