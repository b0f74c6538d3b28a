//! Verified character and string utilities shared by the pipeline:
//! conversion between `&str` and `Vec<char>`, splitting, trimming,
//! quoting, equality, and decimal rendering of numbers.
use vstd::prelude::*;
use vstd::string::StrSliceExecFns;

verus! {

/// Relies on std's `String::push`: appends one character at the end.
#[verifier::external_body]
pub(crate) fn push_char(s: &mut String, c: char)
    ensures
        final(s)@ == old(s)@.push(c),
{
    s.push(c)
}

/// The characters of a string slice, as a vector.
pub fn chars_of(s: &str) -> (r: Vec<char>)
    ensures
        r@ == s@,
{
    let n = s.unicode_len();
    let mut r: Vec<char> = Vec::new();
    let mut i: usize = 0;
    while i < n
        invariant
            n == s@.len(),
            i <= n,
            r@ == s@.subrange(0, i as int),
        decreases n - i,
    {
        let c = s.get_char(i);
        r.push(c);
        i = i + 1;
        proof {
            assert(r@ =~= s@.subrange(0, i as int));
        }
    }
    proof {
        assert(s@.subrange(0, n as int) =~= s@);
    }
    r
}

/// A range of a character vector, copied into a `String`.
pub fn string_from_range(cs: &Vec<char>, from: usize, to: usize) -> (r: String)
    requires
        from <= to <= cs@.len(),
    ensures
        r@ == cs@.subrange(from as int, to as int),
{
    let mut r = String::new();
    let mut i: usize = from;
    while i < to
        invariant
            from <= i <= to <= cs@.len(),
            r@ == cs@.subrange(from as int, i as int),
        decreases to - i,
    {
        push_char(&mut r, cs[i]);
        i = i + 1;
        proof {
            assert(r@ =~= cs@.subrange(from as int, i as int));
        }
    }
    r
}

/// True when two string slices hold the same characters.
pub fn str_eq(a: &str, b: &str) -> (r: bool)
    ensures
        r == (a@ == b@),
{
    let na = a.unicode_len();
    let nb = b.unicode_len();
    if na != nb {
        return false;
    }
    let mut i: usize = 0;
    while i < na
        invariant
            na == a@.len(),
            na == b@.len(),
            i <= na,
            forall|j: int| 0 <= j < i ==> a@[j] == b@[j],
        decreases na - i,
    {
        if a.get_char(i) != b.get_char(i) {
            return false;
        }
        i = i + 1;
    }
    proof {
        assert(a@ =~= b@);
    }
    true
}

/// True when the given range of `cs` holds exactly the characters of `s`.
pub fn range_eq_str(cs: &Vec<char>, from: usize, to: usize, s: &str) -> (r: bool)
    requires
        from <= to <= cs@.len(),
    ensures
        r == (cs@.subrange(from as int, to as int) == s@),
{
    let n = s.unicode_len();
    if n != to - from {
        return false;
    }
    let mut i: usize = 0;
    while i < n
        invariant
            n == s@.len(),
            from <= to <= cs@.len(),
            n == to - from,
            i <= n,
            forall|j: int| 0 <= j < i ==> cs@[from + j] == s@[j],
        decreases n - i,
    {
        if cs[from + i] != s.get_char(i) {
            return false;
        }
        i = i + 1;
    }
    proof {
        assert(cs@.subrange(from as int, to as int) =~= s@);
    }
    true
}

/// Splitting a character sequence at a separator, with `cur` the piece
/// gathered so far: every separator ends a piece, and the final piece is
/// what remains. An empty input yields one empty piece.
pub open spec fn split_rec(s: Seq<char>, sep: char, cur: Seq<char>) -> Seq<Seq<char>>
    decreases s.len(),
{
    if s.len() == 0 {
        seq![cur]
    } else if s[0] == sep {
        seq![cur] + split_rec(s.skip(1), sep, Seq::empty())
    } else {
        split_rec(s.skip(1), sep, cur.push(s[0]))
    }
}

/// The pieces of `s` between occurrences of `sep`.
pub open spec fn spec_split(s: Seq<char>, sep: char) -> Seq<Seq<char>> {
    split_rec(s, sep, Seq::empty())
}

/// The pieces of `cs` between occurrences of `sep`, in order.
pub fn split_vec(cs: &Vec<char>, sep: char) -> (r: Vec<Vec<char>>)
    ensures
        r.deep_view() == spec_split(cs@, sep),
{
    let mut r: Vec<Vec<char>> = Vec::new();
    let mut cur: Vec<char> = Vec::new();
    let mut i: usize = 0;
    proof {
        assert(cs@.skip(0) =~= cs@);
        assert(r.deep_view() + split_rec(cs@, sep, cur@) =~= split_rec(cs@, sep, cur@));
    }
    while i < cs.len()
        invariant
            i <= cs@.len(),
            spec_split(cs@, sep) == r.deep_view() + split_rec(cs@.skip(i as int), sep, cur@),
        decreases cs@.len() - i,
    {
        let ghost pre = cs@.skip(i as int);
        proof {
            assert(pre[0] == cs@[i as int]);
            assert(pre.skip(1) =~= cs@.skip(i as int + 1));
        }
        let c = cs[i];
        if c == sep {
            let ghost r0 = r.deep_view();
            let ghost piece = cur@;
            r.push(cur);
            cur = Vec::new();
            proof {
                assert(r.deep_view() =~~= r0.push(piece));
                assert(split_rec(pre, sep, piece) == seq![piece] + split_rec(
                    pre.skip(1),
                    sep,
                    Seq::empty(),
                ));
                assert(r0 + split_rec(pre, sep, piece) =~~= r.deep_view() + split_rec(
                    pre.skip(1),
                    sep,
                    Seq::empty(),
                ));
                assert(cur@ =~= Seq::<char>::empty());
            }
        } else {
            proof {
                assert(split_rec(pre, sep, cur@) == split_rec(pre.skip(1), sep, cur@.push(c)));
            }
            cur.push(c);
        }
        i = i + 1;
    }
    let ghost r0 = r.deep_view();
    let ghost last = cur@;
    proof {
        assert(cs@.skip(cs@.len() as int) =~= Seq::<char>::empty());
        assert(split_rec(Seq::<char>::empty(), sep, last) == seq![last]);
    }
    r.push(cur);
    proof {
        assert(r.deep_view() =~~= r0.push(last));
        assert(r0 + seq![last] =~~= r0.push(last));
    }
    r
}

/// A range of a character vector, copied into a vector of its own.
pub fn subvec(cs: &Vec<char>, from: usize, to: usize) -> (r: Vec<char>)
    requires
        from <= to <= cs@.len(),
    ensures
        r@ == cs@.subrange(from as int, to as int),
{
    let mut r: Vec<char> = Vec::new();
    let mut i: usize = from;
    while i < to
        invariant
            from <= i <= to <= cs@.len(),
            r@ == cs@.subrange(from as int, i as int),
        decreases to - i,
    {
        r.push(cs[i]);
        i = i + 1;
        proof {
            assert(r@ =~= cs@.subrange(from as int, i as int));
        }
    }
    r
}

/// The first index of `s` at or after `i` holding the character `c`.
pub open spec fn find_char_from(s: Seq<char>, c: char, i: int) -> Option<int>
    decreases s.len() - i,
{
    if i < 0 || i >= s.len() {
        None
    } else if s[i] == c {
        Some(i)
    } else {
        find_char_from(s, c, i + 1)
    }
}

/// The first index of `cs` at or after `i` holding the character `c`.
pub fn find_char_exec(cs: &Vec<char>, c: char, i: usize) -> (r: Option<usize>)
    requires
        i <= cs@.len(),
    ensures
        match r {
            Some(j) => find_char_from(cs@, c, i as int) == Some(j as int) && i <= j < cs@.len(),
            None => find_char_from(cs@, c, i as int) is None,
        },
    decreases cs@.len() - i,
{
    if i == cs.len() {
        None
    } else if cs[i] == c {
        Some(i)
    } else {
        find_char_exec(cs, c, i + 1)
    }
}

/// True of a space, tab, or carriage return.
pub open spec fn is_blank_char(c: char) -> bool {
    c == ' ' || c == '\t' || c == '\r'
}

/// `s` without leading blank characters.
pub open spec fn trim_front(s: Seq<char>) -> Seq<char>
    decreases s.len(),
{
    if s.len() > 0 && is_blank_char(s[0]) {
        trim_front(s.skip(1))
    } else {
        s
    }
}

/// `s` without trailing blank characters.
pub open spec fn trim_back(s: Seq<char>) -> Seq<char>
    decreases s.len(),
{
    if s.len() > 0 && is_blank_char(s[s.len() - 1]) {
        trim_back(s.take(s.len() - 1))
    } else {
        s
    }
}

/// `s` without leading and trailing blank characters.
pub open spec fn spec_trim(s: Seq<char>) -> Seq<char> {
    trim_back(trim_front(s))
}

/// The first index of `s` from `lo` on that holds a non-blank character,
/// or the length when there is none.
pub open spec fn first_non_blank(s: Seq<char>, lo: int) -> int
    decreases s.len() - lo,
{
    if lo < 0 || lo >= s.len() {
        s.len() as int
    } else if is_blank_char(s[lo]) {
        first_non_blank(s, lo + 1)
    } else {
        lo
    }
}

proof fn lemma_trim_front_skip(s: Seq<char>, lo: int)
    requires
        0 <= lo <= s.len(),
        forall|j: int| 0 <= j < lo ==> is_blank_char(s[j]),
    ensures
        trim_front(s) == trim_front(s.skip(lo)),
    decreases lo,
{
    if lo > 0 {
        assert(trim_front(s) == trim_front(s.skip(1)));
        assert(s.skip(1).skip(lo - 1) =~= s.skip(lo));
        lemma_trim_front_skip(s.skip(1), lo - 1);
    } else {
        assert(s.skip(0) =~= s);
    }
}

proof fn lemma_trim_back_take(s: Seq<char>, hi: int)
    requires
        0 <= hi <= s.len(),
        forall|j: int| hi <= j < s.len() ==> is_blank_char(s[j]),
    ensures
        trim_back(s) == trim_back(s.take(hi)),
    decreases s.len() - hi,
{
    if hi < s.len() {
        assert(trim_back(s) == trim_back(s.take(s.len() - 1)));
        assert(s.take(s.len() - 1).take(hi) =~= s.take(hi));
        lemma_trim_back_take(s.take(s.len() - 1), hi);
    } else {
        assert(s.take(s.len() as int) =~= s);
    }
}

/// The bounds of the blank-trimmed middle of the given range of `cs`:
/// the subrange between them is the trimmed text.
pub fn trim_range(cs: &Vec<char>, from: usize, to: usize) -> (r: (usize, usize))
    requires
        from <= to <= cs@.len(),
    ensures
        from <= r.0 <= r.1 <= to,
        cs@.subrange(r.0 as int, r.1 as int) == spec_trim(cs@.subrange(from as int, to as int)),
{
    let ghost s = cs@.subrange(from as int, to as int);
    let mut lo: usize = from;
    while lo < to && (cs[lo] == ' ' || cs[lo] == '\t' || cs[lo] == '\r')
        invariant
            from <= lo <= to <= cs@.len(),
            forall|j: int| from <= j < lo ==> is_blank_char(cs@[j]),
        decreases to - lo,
    {
        lo = lo + 1;
    }
    proof {
        lemma_trim_front_skip(s, lo - from);
        assert(s.skip(lo - from) =~= cs@.subrange(lo as int, to as int));
    }
    let ghost t = cs@.subrange(lo as int, to as int);
    // now trim_front(s) == t, and t is either empty or starts non-blank
    let mut hi: usize = to;
    while hi > lo && (cs[hi - 1] == ' ' || cs[hi - 1] == '\t' || cs[hi - 1] == '\r')
        invariant
            lo <= hi <= to <= cs@.len(),
            forall|j: int| hi <= j < to ==> is_blank_char(cs@[j]),
        decreases hi,
    {
        hi = hi - 1;
    }
    proof {
        lemma_trim_back_take(t, hi - lo);
        assert(t.take(hi - lo) =~= cs@.subrange(lo as int, hi as int));
        if lo < hi {
            assert(!is_blank_char(cs@[lo as int]));
            assert(trim_front(t) == t);
            assert(!is_blank_char(cs@[hi - 1]));
            assert(trim_back(cs@.subrange(lo as int, hi as int)) == cs@.subrange(
                lo as int,
                hi as int,
            ));
        } else {
            assert(cs@.subrange(lo as int, hi as int) =~= Seq::<char>::empty());
            assert(trim_front(t) == t);
            assert(trim_back(cs@.subrange(lo as int, hi as int)) == cs@.subrange(
                lo as int,
                hi as int,
            ));
        }
    }
    (lo, hi)
}

/// The end of the given range of `cs` after trimming trailing blanks:
/// the subrange from `from` to it is the back-trimmed text.
pub fn trim_back_range(cs: &Vec<char>, from: usize, to: usize) -> (r: usize)
    requires
        from <= to <= cs@.len(),
    ensures
        from <= r <= to,
        cs@.subrange(from as int, r as int) == trim_back(cs@.subrange(from as int, to as int)),
{
    let ghost s = cs@.subrange(from as int, to as int);
    let mut hi: usize = to;
    while hi > from && (cs[hi - 1] == ' ' || cs[hi - 1] == '\t' || cs[hi - 1] == '\r')
        invariant
            from <= hi <= to <= cs@.len(),
            forall|j: int| hi <= j < to ==> is_blank_char(cs@[j]),
        decreases hi,
    {
        hi = hi - 1;
    }
    proof {
        lemma_trim_back_take(s, hi - from);
        assert(s.take(hi - from) =~= cs@.subrange(from as int, hi as int));
        if from < hi {
            assert(!is_blank_char(cs@[hi - 1]));
            assert(trim_back(cs@.subrange(from as int, hi as int)) == cs@.subrange(
                from as int,
                hi as int,
            ));
        } else {
            assert(cs@.subrange(from as int, hi as int) =~= Seq::<char>::empty());
            assert(trim_back(cs@.subrange(from as int, hi as int)) == cs@.subrange(
                from as int,
                hi as int,
            ));
        }
    }
    hi
}

/// `s` without one pair of matching surrounding quotes, if it has one.
pub open spec fn spec_unquote(s: Seq<char>) -> Seq<char> {
    if s.len() >= 2 && ((s[0] == '"' && s[s.len() - 1] == '"') || (s[0] == '\'' && s[s.len() - 1]
        == '\'')) {
        s.subrange(1, s.len() - 1)
    } else {
        s
    }
}

/// The bounds of the given range of `cs` after removing one pair of
/// matching surrounding quotes, if the range has one.
pub fn unquote_range(cs: &Vec<char>, from: usize, to: usize) -> (r: (usize, usize))
    requires
        from <= to <= cs@.len(),
    ensures
        from <= r.0 <= r.1 <= to,
        cs@.subrange(r.0 as int, r.1 as int) == spec_unquote(
            cs@.subrange(from as int, to as int),
        ),
{
    if to - from >= 2 && ((cs[from] == '"' && cs[to - 1] == '"') || (cs[from] == '\'' && cs[to - 1]
        == '\'')) {
        proof {
            assert(cs@.subrange(from + 1, to - 1) =~= cs@.subrange(from as int, to as int).subrange(
                1,
                (to - from) - 1,
            ));
        }
        (from + 1, to - 1)
    } else {
        (from, to)
    }
}

/// The decimal digit character for `d`.
pub open spec fn digit_char(d: int) -> char {
    ((d + 48) as u8) as char
}

/// The decimal representation of `n`, without padding or sign.
pub open spec fn dec_rep(n: nat) -> Seq<char>
    decreases n,
{
    if n < 10 {
        seq![digit_char(n as int)]
    } else {
        dec_rep(n / 10).push(digit_char((n % 10) as int))
    }
}

/// The decimal representation of `n`, zero-padded to two digits.
pub open spec fn dec2(n: nat) -> Seq<char> {
    if n < 10 {
        seq!['0'] + dec_rep(n)
    } else {
        dec_rep(n)
    }
}

/// The decimal representation of `n`, zero-padded to four digits.
pub open spec fn dec4(n: nat) -> Seq<char> {
    if n < 10 {
        seq!['0', '0', '0'] + dec_rep(n)
    } else if n < 100 {
        seq!['0', '0'] + dec_rep(n)
    } else if n < 1000 {
        seq!['0'] + dec_rep(n)
    } else {
        dec_rep(n)
    }
}

fn digit_char_exec(d: u8) -> (c: char)
    requires
        d < 10,
    ensures
        c == digit_char(d as int),
{
    (d + 48) as char
}

/// Appends the decimal representation of `n` to `s`.
pub fn append_u64(s: &mut String, n: u64)
    ensures
        final(s)@ == old(s)@ + dec_rep(n as nat),
    decreases n,
{
    if n < 10 {
        push_char(s, digit_char_exec(n as u8));
        proof {
            assert(old(s)@.push(digit_char(n as int)) =~= old(s)@ + dec_rep(n as nat));
        }
    } else {
        append_u64(s, n / 10);
        push_char(s, digit_char_exec((n % 10) as u8));
        proof {
            assert((old(s)@ + dec_rep((n / 10) as nat)).push(digit_char((n % 10) as int)) =~= old(
                s,
            )@ + dec_rep(n as nat));
        }
    }
}

/// Appends the decimal representation of `n`, zero-padded to two digits.
pub fn append_u64_pad2(s: &mut String, n: u64)
    ensures
        final(s)@ == old(s)@ + dec2(n as nat),
{
    if n < 10 {
        push_char(s, '0');
    }
    append_u64(s, n);
    proof {
        if n < 10 {
            assert(old(s)@.push('0') + dec_rep(n as nat) =~= old(s)@ + dec2(n as nat));
        }
    }
}

/// Appends the decimal representation of `n`, zero-padded to four digits.
pub fn append_u64_pad4(s: &mut String, n: u64)
    ensures
        final(s)@ == old(s)@ + dec4(n as nat),
{
    if n < 10 {
        push_char(s, '0');
        push_char(s, '0');
        push_char(s, '0');
    } else if n < 100 {
        push_char(s, '0');
        push_char(s, '0');
    } else if n < 1000 {
        push_char(s, '0');
    }
    append_u64(s, n);
    proof {
        if n < 10 {
            assert(old(s)@.push('0').push('0').push('0') + dec_rep(n as nat) =~= old(s)@ + dec4(
                n as nat,
            ));
        } else if n < 100 {
            assert(old(s)@.push('0').push('0') + dec_rep(n as nat) =~= old(s)@ + dec4(n as nat));
        } else if n < 1000 {
            assert(old(s)@.push('0') + dec_rep(n as nat) =~= old(s)@ + dec4(n as nat));
        }
    }
}

} // verus!
