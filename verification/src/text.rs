//! Text primitives: every string the library reads or builds goes through here.
//!
//! A string is the sequence of its characters. Each operation is stated as a
//! spec function on `Seq<char>` and an executable function proved equal to it.
use vstd::prelude::*;

verus! {

/// `String::push` of the standard library: the character goes behind the last one.
pub assume_specification[ String::push ](s: &mut String, c: char)
    ensures
        final(s)@ == old(s)@.push(c),
;

/// Whether `prefix` begins `s`.
pub open spec fn begins(s: Seq<char>, prefix: Seq<char>) -> bool {
    prefix.len() <= s.len() && s.take(prefix.len() as int) == prefix
}

/// The pieces of `s` between the occurrences of `sep`; one more than there are occurrences.
pub open spec fn split_on(s: Seq<char>, sep: char) -> Seq<Seq<char>>
    decreases s.len(),
{
    if s.len() == 0 {
        seq![Seq::<char>::empty()]
    } else {
        let rest = split_on(s.drop_last(), sep);
        if s.last() == sep {
            rest.push(Seq::empty())
        } else {
            rest.drop_last().push(rest.last().push(s.last()))
        }
    }
}

/// `s` without one carriage return at its end, if it has one there.
pub open spec fn without_cr(s: Seq<char>) -> Seq<char> {
    if s.len() > 0 && s.last() == '\r' {
        s.drop_last()
    } else {
        s
    }
}

/// The lines of `s`. A line ends at a line feed, which takes a carriage return
/// before it along; what follows the last line feed is a line unless it is empty.
pub open spec fn lines_of(s: Seq<char>) -> Seq<Seq<char>> {
    let parts = split_on(s, '\n');
    let ended = parts.drop_last().map_values(|p: Seq<char>| without_cr(p));
    if parts.last().len() == 0 {
        ended
    } else {
        ended.push(parts.last())
    }
}

/// `parts` one behind the other, with `sep` between neighbours.
pub open spec fn join_with(parts: Seq<Seq<char>>, sep: Seq<char>) -> Seq<char>
    decreases parts.len(),
{
    if parts.len() == 0 {
        Seq::empty()
    } else if parts.len() == 1 {
        parts[0]
    } else {
        join_with(parts.drop_last(), sep) + sep + parts.last()
    }
}

/// `s` with every occurrence of `pat`, found from the left, written as `with`.
pub open spec fn replaced(s: Seq<char>, pat: Seq<char>, with: Seq<char>) -> Seq<char>
    decreases s.len(),
{
    if pat.len() == 0 || s.len() < pat.len() {
        s
    } else if begins(s, pat) {
        with + replaced(s.skip(pat.len() as int), pat, with)
    } else {
        seq![s[0]] + replaced(s.skip(1), pat, with)
    }
}

/// Whether `pat` stands somewhere in `s`.
pub open spec fn has_text(s: Seq<char>, pat: Seq<char>) -> bool {
    exists|i: int| 0 <= i <= s.len() && #[trigger] begins(s.skip(i), pat)
}

/// The Unicode `White_Space` property.
pub open spec fn is_space(c: char) -> bool {
    let n = c as u32;
    ||| 9 <= n <= 13
    ||| n == 32
    ||| n == 0x85
    ||| n == 0xa0
    ||| n == 0x1680
    ||| 0x2000 <= n <= 0x200a
    ||| n == 0x2028
    ||| n == 0x2029
    ||| n == 0x202f
    ||| n == 0x205f
    ||| n == 0x3000
}

/// `s` without the white space at its start.
pub open spec fn trimmed_start(s: Seq<char>) -> Seq<char>
    decreases s.len(),
{
    if s.len() > 0 && is_space(s[0]) {
        trimmed_start(s.skip(1))
    } else {
        s
    }
}

/// `s` without the white space at its end.
pub open spec fn trimmed_end(s: Seq<char>) -> Seq<char>
    decreases s.len(),
{
    if s.len() > 0 && is_space(s.last()) {
        trimmed_end(s.drop_last())
    } else {
        s
    }
}

/// `s` without the white space at either end.
pub open spec fn trimmed(s: Seq<char>) -> Seq<char> {
    trimmed_end(trimmed_start(s))
}

pub open spec fn is_digit(c: char) -> bool {
    '0' <= c <= '9'
}

/// The value that a run of decimal digits writes.
pub open spec fn digits_value(s: Seq<char>) -> int
    decreases s.len(),
{
    if s.len() == 0 {
        0
    } else {
        10 * digits_value(s.drop_last()) + (s.last() as u32 - '0' as u32)
    }
}

pub open spec fn all_digits(s: Seq<char>) -> bool {
    forall|i: int| 0 <= i < s.len() ==> is_digit(#[trigger] s[i])
}

/// The integer that `s` writes: an optional sign, then at least one decimal
/// digit, and nothing else.
pub open spec fn integer_of(s: Seq<char>) -> Option<int> {
    if s.len() > 0 && (s[0] == '-' || s[0] == '+') {
        if s.len() > 1 && all_digits(s.skip(1)) {
            Some(if s[0] == '-' { -digits_value(s.skip(1)) } else { digits_value(s.skip(1)) })
        } else {
            None
        }
    } else if s.len() > 0 && all_digits(s) {
        Some(digits_value(s))
    } else {
        None
    }
}

/// What reading `s` as a 64-bit signed integer gives.
pub open spec fn i64_of(s: Seq<char>) -> Option<i64> {
    match integer_of(s) {
        Some(n) => if i64::MIN <= n <= i64::MAX { Some(n as i64) } else { None },
        None => None,
    }
}

/// The number that a text writes in decimal for a `u32`: a sign may be there,
/// and it is no minus.
pub open spec fn u32_of(s: Seq<char>) -> Option<u32> {
    match integer_of(s) {
        Some(n) => if s[0] != '-' && n <= u32::MAX { Some(n as u32) } else { None },
        None => None,
    }
}

/// The digit character of `d`.
pub open spec fn digit_char(d: int) -> char {
    if d == 0 { '0' } else if d == 1 { '1' } else if d == 2 { '2' } else if d == 3 { '3' }
    else if d == 4 { '4' } else if d == 5 { '5' } else if d == 6 { '6' } else if d == 7 { '7' }
    else if d == 8 { '8' } else { '9' }
}

/// `n` in decimal, without leading zeros.
pub open spec fn decimal(n: nat) -> Seq<char>
    decreases n,
{
    if n < 10 {
        seq![digit_char(n as int)]
    } else {
        decimal(n / 10).push(digit_char((n % 10) as int))
    }
}

/// `n` in decimal, with a sign where it is negative.
pub open spec fn signed(n: int) -> Seq<char> {
    if n < 0 {
        "-"@ + decimal((-n) as nat)
    } else {
        decimal(n as nat)
    }
}

/// The order of text: character by character, and a prefix before what it begins.
pub open spec fn precedes(a: Seq<char>, b: Seq<char>) -> bool
    decreases a.len(),
{
    if b.len() == 0 {
        false
    } else if a.len() == 0 {
        true
    } else if a[0] != b[0] {
        a[0] < b[0]
    } else {
        precedes(a.skip(1), b.skip(1))
    }
}

/// The text that Rust's `Debug` writes for a string: the string in quotes, escaped.
pub uninterp spec fn quoted_text(s: Seq<char>) -> Seq<char>;

/// `Debug` of `str` in the standard library, written by `format!`. The text it
/// gives is named by [`quoted_text`]; which characters it escapes is not stated.
#[verifier::external_body]
pub(crate) fn quoted(s: &str) -> (r: String)
    ensures
        r@ == quoted_text(s@),
{
    format!("{:?}", s)
}

/// The characters of `s`, in order.
pub fn chars_of(s: &str) -> (v: Vec<char>)
    ensures
        v@ == s@,
{
    let mut v: Vec<char> = Vec::new();
    for c in it: s.chars()
        invariant
            v@ == s@.take(it.index()),
            it.seq() == s@,
    {
        proof {
            assert(s@.take(it.index() + 1) == s@.take(it.index()).push(s@[it.index()]));
        }
        v.push(c);
    }
    proof {
        assert(s@.take(s@.len() as int) == s@);
    }
    v
}

/// The string made of `v[from..to]`.
pub fn string_of(v: &Vec<char>, from: usize, to: usize) -> (s: String)
    requires
        from <= to <= v.len(),
    ensures
        s@ == v@.subrange(from as int, to as int),
{
    let mut s: String = String::new();
    let mut i: usize = from;
    while i < to
        invariant
            from <= i <= to <= v.len(),
            s@ == v@.subrange(from as int, i as int),
        decreases to - i,
    {
        proof {
            assert(v@.subrange(from as int, i + 1) == v@.subrange(from as int, i as int).push(v@[i as int]));
        }
        s.push(v[i]);
        i = i + 1;
    }
    s
}

/// Whether two strings hold the same characters.
pub fn same(a: &str, b: &str) -> (r: bool)
    ensures
        r == (a@ == b@),
{
    let x: Vec<char> = chars_of(a);
    let y: Vec<char> = chars_of(b);
    if x.len() != y.len() {
        return false;
    }
    let mut i: usize = 0;
    while i < x.len()
        invariant
            0 <= i <= x.len(),
            x.len() == y.len(),
            x@ == a@,
            y@ == b@,
            forall|j: int| 0 <= j < i ==> x@[j] == y@[j],
        decreases x.len() - i,
    {
        if x[i] != y[i] {
            return false;
        }
        i = i + 1;
    }
    assert(a@ =~= b@);
    true
}

/// The character sequences that a list of strings holds.
pub open spec fn texts(v: Seq<String>) -> Seq<Seq<char>> {
    v.map_values(|s: String| s@)
}

/// The characters that an optional string holds.
pub open spec fn opt_text(s: Option<String>) -> Option<Seq<char>> {
    match s {
        Some(x) => Some(x@),
        None => None,
    }
}

/// A copy of an optional string.
pub fn copy_opt(s: &Option<String>) -> (r: Option<String>)
    ensures
        r == *s,
{
    match s {
        Some(x) => Some(x.clone()),
        None => None,
    }
}

/// A copy of a list of strings.
pub fn copy_strings(v: &Vec<String>) -> (r: Vec<String>)
    ensures
        r@ == v@,
{
    let mut r: Vec<String> = Vec::new();
    let mut i: usize = 0;
    while i < v.len()
        invariant
            i <= v.len(),
            r@ == v@.take(i as int),
        decreases v.len() - i,
    {
        r.push(v[i].clone());
        assert(r@ =~= v@.take(i + 1));
        i = i + 1;
    }
    assert(v@.take(i as int) =~= v@);
    r
}

/// Whether `prefix` begins the characters of `v` from position `at` on.
fn begins_at(v: &Vec<char>, at: usize, prefix: &Vec<char>) -> (r: bool)
    requires
        at <= v.len(),
    ensures
        r == begins(v@.skip(at as int), prefix@),
{
    if prefix.len() > v.len() - at {
        return false;
    }
    let mut i: usize = 0;
    while i < prefix.len()
        invariant
            i <= prefix.len(),
            at + prefix.len() <= v.len(),
            forall|j: int| 0 <= j < i ==> v@[at + j] == prefix@[j],
        decreases prefix.len() - i,
    {
        if v[at + i] != prefix[i] {
            proof {
                assert(v@.skip(at as int).take(prefix@.len() as int)[i as int] == v@[at + i]);
            }
            return false;
        }
        i = i + 1;
    }
    assert(v@.skip(at as int).take(prefix@.len() as int) =~= prefix@);
    true
}

/// Whether `s` begins with `prefix`.
pub fn starts_with(s: &str, prefix: &str) -> (r: bool)
    ensures
        r == begins(s@, prefix@),
{
    let v: Vec<char> = chars_of(s);
    let p: Vec<char> = chars_of(prefix);
    assert(v@.skip(0) =~= v@);
    begins_at(&v, 0, &p)
}

/// Whether the character `c` occurs in `s`.
pub fn has_char(s: &str, c: char) -> (r: bool)
    ensures
        r == s@.contains(c),
{
    let v: Vec<char> = chars_of(s);
    let mut i: usize = 0;
    while i < v.len()
        invariant
            i <= v.len(),
            v@ == s@,
            forall|j: int| 0 <= j < i ==> v@[j] != c,
        decreases v.len() - i,
    {
        if v[i] == c {
            return true;
        }
        i = i + 1;
    }
    false
}

/// Whether `pat` stands somewhere in `s`.
pub fn contains_text(s: &str, pat: &str) -> (r: bool)
    ensures
        r == has_text(s@, pat@),
{
    let v: Vec<char> = chars_of(s);
    let p: Vec<char> = chars_of(pat);
    let mut i: usize = 0;
    while i < v.len()
        invariant
            i <= v.len(),
            v@ == s@,
            p@ == pat@,
            forall|j: int| 0 <= j < i ==> !begins(s@.skip(j), pat@),
        decreases v.len() - i,
    {
        if begins_at(&v, i, &p) {
            return true;
        }
        i = i + 1;
    }
    begins_at(&v, i, &p)
}

proof fn lemma_split_nonempty(s: Seq<char>, sep: char)
    ensures
        split_on(s, sep).len() >= 1,
    decreases s.len(),
{
    if s.len() > 0 {
        lemma_split_nonempty(s.drop_last(), sep);
    }
}

/// The pieces of `s` between the occurrences of `sep`.
pub fn split(s: &str, sep: char) -> (parts: Vec<String>)
    ensures
        texts(parts@) == split_on(s@, sep),
        parts.len() >= 1,
{
    let v: Vec<char> = chars_of(s);
    let mut parts: Vec<String> = Vec::new();
    let mut cur: String = String::new();
    let mut i: usize = 0;
    while i < v.len()
        invariant
            i <= v.len(),
            v@ == s@,
            texts(parts@).push(cur@) == split_on(s@.take(i as int), sep),
        decreases v.len() - i,
    {
        proof {
            assert(s@.take(i + 1).drop_last() =~= s@.take(i as int));
            assert(s@.take(i + 1).last() == v@[i as int]);
        }
        let ghost before = texts(parts@).push(cur@);
        if v[i] == sep {
            let ghost done = parts@;
            parts.push(cur);
            cur = String::new();
            proof {
                assert(texts(parts@) =~= before);
                assert(texts(parts@).push(cur@) =~= before.push(Seq::empty()));
            }
        } else {
            let ghost head = cur@;
            cur.push(v[i]);
            proof {
                assert(before.drop_last().push(before.last().push(v@[i as int])) =~= texts(parts@).push(cur@));
            }
        }
        i = i + 1;
    }
    let ghost before = texts(parts@).push(cur@);
    parts.push(cur);
    proof {
        assert(s@.take(s@.len() as int) =~= s@);
        assert(texts(parts@) =~= before);
    }
    parts
}

fn cut_cr(s: &String) -> (r: String)
    ensures
        r@ == without_cr(s@),
{
    let v: Vec<char> = chars_of(s.as_str());
    if v.len() > 0 && v[v.len() - 1] == '\r' {
        let r: String = string_of(&v, 0, v.len() - 1);
        assert(r@ =~= s@.drop_last());
        r
    } else {
        s.clone()
    }
}

/// The lines of `s`.
pub fn lines(s: &str) -> (r: Vec<String>)
    ensures
        texts(r@) == lines_of(s@),
{
    let parts: Vec<String> = split(s, '\n');
    let ghost all = split_on(s@, '\n');
    let ghost ended = all.drop_last().map_values(|p: Seq<char>| without_cr(p));
    let mut r: Vec<String> = Vec::new();
    let mut i: usize = 0;
    let n: usize = parts.len() - 1;
    while i < n
        invariant
            n == parts.len() - 1,
            i <= n,
            texts(parts@) == all,
            ended == all.drop_last().map_values(|p: Seq<char>| without_cr(p)),
            texts(r@) == ended.take(i as int),
        decreases n - i,
    {
        let ghost before = r@;
        r.push(cut_cr(&parts[i]));
        proof {
            assert(all[i as int] == parts@[i as int]@);
            assert(all.drop_last()[i as int] == all[i as int]);
            assert(ended[i as int] == without_cr(all[i as int]));
            assert(ended.take(i + 1) =~= ended.take(i as int).push(ended[i as int]));
            assert(texts(r@) =~= texts(before).push(r@.last()@));
        }
        i = i + 1;
    }
    proof {
        assert(ended.take(n as int) =~= ended);
        assert(all.last() == parts@[n as int]@);
    }
    if !parts[n].as_str().is_empty() {
        let ghost before = r@;
        r.push(parts[n].clone());
        proof {
            assert(texts(r@) =~= ended.push(all.last()));
        }
    }
    r
}

/// `parts` one behind the other, with `sep` between neighbours.
pub fn join(parts: &Vec<String>, sep: &str) -> (r: String)
    ensures
        r@ == join_with(texts(parts@), sep@),
{
    let mut r: String = String::new();
    let mut i: usize = 0;
    while i < parts.len()
        invariant
            i <= parts.len(),
            r@ == join_with(texts(parts@).take(i as int), sep@),
        decreases parts.len() - i,
    {
        proof {
            let t = texts(parts@).take(i + 1);
            assert(t.drop_last() =~= texts(parts@).take(i as int));
            assert(t.last() == parts@[i as int]@);
        }
        if i > 0 {
            r.append(sep);
        }
        let ghost before = r@;
        r.append(parts[i].as_str());
        proof {
            if i == 0 {
                assert(r@ =~= parts@[0]@);
            }
        }
        i = i + 1;
    }
    proof {
        assert(texts(parts@).take(parts@.len() as int) =~= texts(parts@));
    }
    r
}

/// `s` with every occurrence of `pat`, found from the left, written as `with`.
pub fn replace(s: &str, pat: &str, with: &str) -> (r: String)
    requires
        pat@.len() > 0,
    ensures
        r@ == replaced(s@, pat@, with@),
{
    let v: Vec<char> = chars_of(s);
    let p: Vec<char> = chars_of(pat);
    let mut r: String = String::new();
    let mut i: usize = 0;
    proof {
        assert(s@.skip(0) =~= s@);
        assert(r@ + replaced(s@.skip(0), pat@, with@) =~= replaced(s@, pat@, with@));
    }
    while i < v.len()
        invariant
            i <= v.len(),
            v@ == s@,
            p@ == pat@,
            p.len() > 0,
            r@ + replaced(s@.skip(i as int), pat@, with@) == replaced(s@, pat@, with@),
        decreases v.len() - i,
    {
        let ghost before = r@;
        let ghost rest = s@.skip(i as int);
        if begins_at(&v, i, &p) {
            r.append(with);
            i = i + p.len();
            proof {
                assert(rest.skip(pat@.len() as int) =~= s@.skip(i as int));
                assert(r@ + replaced(s@.skip(i as int), pat@, with@) =~= before + replaced(rest, pat@, with@));
            }
        } else {
            proof {
                assert(rest.skip(1) =~= s@.skip(i + 1));
                assert(rest.len() < pat@.len() ==> replaced(rest.skip(1), pat@, with@) == rest.skip(1));
                assert(seq![rest[0]] + rest.skip(1) =~= rest);
            }
            r.push(v[i]);
            i = i + 1;
            proof {
                assert(r@ =~= before + seq![rest[0]]);
                assert(r@ + replaced(s@.skip(i as int), pat@, with@) =~= before + (seq![rest[0]]
                    + replaced(rest.skip(1), pat@, with@)));
            }
        }
    }
    proof {
        assert(s@.skip(i as int) =~= Seq::<char>::empty());
        assert(r@ + Seq::<char>::empty() =~= r@);
    }
    r
}

fn space(c: char) -> (r: bool)
    ensures
        r == is_space(c),
{
    let n: u32 = c as u32;
    (9 <= n && n <= 13) || n == 32 || n == 0x85 || n == 0xa0 || n == 0x1680 || (0x2000 <= n && n
        <= 0x200a) || n == 0x2028 || n == 0x2029 || n == 0x202f || n == 0x205f || n == 0x3000
}

/// `s` without the white space at either end.
pub fn trim(s: &str) -> (r: String)
    ensures
        r@ == trimmed(s@),
{
    let v: Vec<char> = chars_of(s);
    let mut from: usize = 0;
    proof {
        assert(s@.skip(0) =~= s@);
    }
    while from < v.len() && space(v[from])
        invariant
            from <= v.len(),
            v@ == s@,
            trimmed_start(s@) == trimmed_start(s@.skip(from as int)),
        decreases v.len() - from,
    {
        proof {
            assert(s@.skip(from as int).skip(1) =~= s@.skip(from + 1));
        }
        from = from + 1;
    }
    let ghost mid = trimmed_start(s@);
    let mut to: usize = v.len();
    proof {
        assert(mid == s@.skip(from as int));
        assert(s@.subrange(from as int, to as int) =~= mid);
    }
    while to > from && space(v[to - 1])
        invariant
            from <= to <= v.len(),
            v@ == s@,
            trimmed_end(mid) == trimmed_end(s@.subrange(from as int, to as int)),
        decreases to,
    {
        proof {
            assert(s@.subrange(from as int, to as int).drop_last() =~= s@.subrange(from as int, to - 1));
        }
        to = to - 1;
    }
    string_of(&v, from, to)
}

/// What reading `s` as a 64-bit signed integer gives: `None` unless `s` is an
/// optional sign and decimal digits, with a value in range.
pub fn parse_i64(s: &str) -> (r: Option<i64>)
    ensures
        r == i64_of(s@),
{
    let v: Vec<char> = chars_of(s);
    let signed: bool = v.len() > 0 && (v[0] == '-' || v[0] == '+');
    let start: usize = if signed { 1 } else { 0 };
    let ghost body = if signed { s@.skip(1) } else { s@ };
    if v.len() == start {
        return None;
    }
    let bound: u64 = 0x8000_0000_0000_0000;
    let mut n: u64 = 0;
    let mut over: bool = false;
    let mut i: usize = start;
    proof {
        assert(body.len() == v.len() - start);
        assert(body.take(0) =~= Seq::<char>::empty());
    }
    while i < v.len()
        invariant
            start <= i <= v.len(),
            v@ == s@,
            signed == (v@.len() > 0 && (v@[0] == '-' || v@[0] == '+')),
            start == if signed { 1int } else { 0int },
            body == s@.skip(start as int),
            bound == 0x8000_0000_0000_0000u64,
            !over ==> n == digits_value(body.take(i - start)) && n <= bound,
            over ==> digits_value(body.take(i - start)) > bound,
            forall|j: int| 0 <= j < i - start ==> is_digit(#[trigger] body[j]),
        decreases v.len() - i,
    {
        let c: char = v[i];
        assert(body[i - start] == c);
        if c < '0' || c > '9' {
            assert(!all_digits(body));
            assert(!signed ==> body =~= s@);
            return None;
        }
        let d: u64 = (c as u32 - '0' as u32) as u64;
        proof {
            let t = body.take(i + 1 - start);
            assert(t.drop_last() =~= body.take(i - start));
            assert(t.last() == c);
        }
        if !over {
            let wide: u128 = 10 * (n as u128) + (d as u128);
            if wide > bound as u128 {
                over = true;
            } else {
                n = wide as u64;
            }
        }
        i = i + 1;
    }
    proof {
        assert(body.take(body.len() as int) =~= body);
        assert(all_digits(body));
        assert(!signed ==> s@.skip(0) =~= s@);
    }
    if over {
        return None;
    }
    if signed && v[0] == '-' {
        if n == bound {
            return Some(i64::MIN);
        }
        return Some(-(n as i64));
    }
    if n == bound {
        return None;
    }
    Some(n as i64)
}

/// The character of a decimal digit.
fn digit(d: u64) -> (c: char)
    requires
        d < 10,
    ensures
        c == digit_char(d as int),
{
    if d == 0 { '0' } else if d == 1 { '1' } else if d == 2 { '2' } else if d == 3 { '3' }
    else if d == 4 { '4' } else if d == 5 { '5' } else if d == 6 { '6' } else if d == 7 { '7' }
    else if d == 8 { '8' } else { '9' }
}

/// What digits write is not negative.
proof fn lemma_digits_value(s: Seq<char>)
    requires
        all_digits(s),
    ensures
        digits_value(s) >= 0,
    decreases s.len(),
{
    if s.len() > 0 {
        assert(is_digit(s[s.len() - 1]));
        assert(all_digits(s.drop_last())) by {
            assert forall|i: int| 0 <= i < s.drop_last().len() implies is_digit(
                #[trigger] s.drop_last()[i],
            ) by {
                assert(is_digit(s[i]));
            }
        }
        lemma_digits_value(s.drop_last());
    }
}

/// Reads a `u32`.
pub fn parse_u32(s: &str) -> (r: Option<u32>)
    ensures
        r == u32_of(s@),
{
    let v: Vec<char> = chars_of(s);
    if v.len() > 0 && v[0] == '-' {
        return None;
    }
    proof {
        if all_digits(s@.skip(1)) {
            lemma_digits_value(s@.skip(1));
        }
        if all_digits(s@) {
            lemma_digits_value(s@);
        }
    }
    match parse_i64(s) {
        None => None,
        Some(n) => if n <= 0xffff_ffff {
            Some(n as u32)
        } else {
            None
        },
    }
}

/// `n` in decimal, without leading zeros.
pub fn decimal_of(n: u64) -> (s: String)
    ensures
        s@ == decimal(n as nat),
    decreases n,
{
    if n < 10 {
        let mut s: String = String::new();
        s.push(digit(n));
        assert(s@ =~= decimal(n as nat));
        s
    } else {
        let mut s: String = decimal_of(n / 10);
        s.push(digit(n % 10));
        s
    }
}

/// `n` in decimal, with a sign where it is negative.
pub fn signed_of(n: i64) -> (s: String)
    ensures
        s@ == signed(n as int),
{
    if n < 0 {
        let mut s: String = "-".to_owned();
        let m: u64 = (-(n as i128)) as u64;
        s.append(decimal_of(m).as_str());
        s
    } else {
        decimal_of(n as u64)
    }
}

/// Whether `a` stands before `b` in the order of text.
pub fn before(a: &str, b: &str) -> (r: bool)
    ensures
        r == precedes(a@, b@),
{
    let x: Vec<char> = chars_of(a);
    let y: Vec<char> = chars_of(b);
    let mut i: usize = 0;
    proof {
        assert(a@.skip(0) =~= a@ && b@.skip(0) =~= b@);
    }
    while i < x.len() && i < y.len() && x[i] == y[i]
        invariant
            i <= x.len(),
            i <= y.len(),
            x@ == a@,
            y@ == b@,
            precedes(a@, b@) == precedes(a@.skip(i as int), b@.skip(i as int)),
        decreases x.len() - i,
    {
        proof {
            assert(a@.skip(i as int).skip(1) =~= a@.skip(i + 1));
            assert(b@.skip(i as int).skip(1) =~= b@.skip(i + 1));
        }
        i = i + 1;
    }
    if i >= y.len() {
        false
    } else if i >= x.len() {
        true
    } else {
        x[i] < y[i]
    }
}

/// No text stands before itself.
pub proof fn precedes_irreflexive(a: Seq<char>)
    ensures
        !precedes(a, a),
    decreases a.len(),
{
    if a.len() > 0 {
        precedes_irreflexive(a.skip(1));
    }
}

/// The order of text is transitive.
pub proof fn precedes_transitive(a: Seq<char>, b: Seq<char>, c: Seq<char>)
    requires
        precedes(a, b),
        precedes(b, c),
    ensures
        precedes(a, c),
    decreases a.len(),
{
    if a.len() > 0 && a[0] == b[0] && b[0] == c[0] {
        precedes_transitive(a.skip(1), b.skip(1), c.skip(1));
    }
}

/// Of two different texts one stands before the other.
pub proof fn precedes_total(a: Seq<char>, b: Seq<char>)
    ensures
        a == b || precedes(a, b) || precedes(b, a),
    decreases a.len(),
{
    if a.len() > 0 && b.len() > 0 && a[0] == b[0] {
        precedes_total(a.skip(1), b.skip(1));
        if a.skip(1) == b.skip(1) {
            assert(a =~= seq![a[0]] + a.skip(1));
            assert(b =~= seq![b[0]] + b.skip(1));
        }
    } else if a.len() == 0 && b.len() == 0 {
        assert(a =~= b);
    }
}

/// Joining the pieces of a split with the separator gives the text back.
pub proof fn split_then_join(s: Seq<char>, sep: char)
    ensures
        join_with(split_on(s, sep), seq![sep]) == s,
    decreases s.len(),
{
    if s.len() > 0 {
        split_then_join(s.drop_last(), sep);
        lemma_split_nonempty(s.drop_last(), sep);
        let rest = split_on(s.drop_last(), sep);
        assert(s.drop_last().push(s.last()) =~= s);
        if s.last() == sep {
            assert(rest.push(Seq::empty()).drop_last() =~= rest);
            assert(s.drop_last() + seq![sep] + Seq::<char>::empty() =~= s);
            if rest.len() == 1 {
                assert(join_with(rest, seq![sep]) == rest[0]);
            }
        } else {
            let t = rest.drop_last().push(rest.last().push(s.last()));
            assert(t.drop_last() =~= rest.drop_last());
            if rest.len() > 1 {
                assert(join_with(rest.drop_last(), seq![sep]) + seq![sep] + rest.last().push(s.last()) =~= (
                join_with(rest.drop_last(), seq![sep]) + seq![sep] + rest.last()).push(s.last()));
            }
        }
    }
}

/// A text begins with another if and only if it is that text and something behind
/// it.
pub proof fn a_beginning_has_a_rest(s: Seq<char>, prefix: Seq<char>, rest: Seq<char>)
    ensures
        begins(prefix + rest, prefix),
        begins(s, prefix) ==> prefix + s.skip(prefix.len() as int) == s,
        begins(s, prefix) && prefix.len() > 0 ==> s.len() > 0 && s[0] == prefix[0],
{
    assert((prefix + rest).take(prefix.len() as int) =~= prefix);
    if begins(s, prefix) {
        assert(prefix + s.skip(prefix.len() as int) =~= s);
        if prefix.len() > 0 {
            assert(s.take(prefix.len() as int)[0] == prefix[0]);
        }
    }
}

/// A text contains another if and only if it is something, that text, and
/// something behind it.
pub proof fn a_part_stands_between(before: Seq<char>, part: Seq<char>, behind: Seq<char>)
    ensures
        has_text(before + part + behind, part),
{
    let s = before + part + behind;
    assert(s.skip(before.len() as int) =~= part + behind);
    a_beginning_has_a_rest(s, part, behind);
    assert(begins(s.skip(before.len() as int), part));
}

/// Splitting undoes joining: parts that do not hold the separator, joined by it,
/// are split into those parts again.
pub proof fn join_then_split(parts: Seq<Seq<char>>, sep: char)
    requires
        parts.len() > 0,
        forall|i: int| 0 <= i < parts.len() ==> !(#[trigger] parts[i]).contains(sep),
    ensures
        split_on(join_with(parts, seq![sep]), sep) == parts,
    decreases parts.len(),
{
    if parts.len() == 1 {
        assert(!parts[0].contains(sep));
        lemma_split_behind(Seq::empty(), parts[0], sep);
        assert(Seq::<char>::empty() + parts[0] =~= parts[0]);
        assert(split_on(parts[0], sep) =~= parts);
    } else {
        let front = parts.drop_last();
        assert forall|i: int| 0 <= i < front.len() implies !(#[trigger] front[i]).contains(sep) by {
            assert(front[i] == parts[i]);
        }
        join_then_split(front, sep);
        let j = join_with(front, seq![sep]);
        let js = j + seq![sep];
        assert(js.drop_last() =~= j);
        assert(split_on(js, sep) == split_on(j, sep).push(Seq::<char>::empty()));
        assert(!parts.last().contains(sep));
        lemma_split_behind(js, parts.last(), sep);
        assert(join_with(parts, seq![sep]) == js + parts.last());
        assert(split_on(js, sep).drop_last() =~= front);
        assert(Seq::<char>::empty() + parts.last() =~= parts.last());
        assert(front.push(parts.last()) =~= parts);
    }
}

/// What holds no separator goes behind the last piece.
proof fn lemma_split_behind(s: Seq<char>, t: Seq<char>, sep: char)
    requires
        !t.contains(sep),
    ensures
        split_on(s + t, sep) == split_on(s, sep).drop_last().push(split_on(s, sep).last() + t),
    decreases t.len(),
{
    lemma_split_nonempty(s, sep);
    if t.len() == 0 {
        assert(s + t =~= s);
        assert(split_on(s, sep).last() + t =~= split_on(s, sep).last());
        assert(split_on(s, sep).drop_last().push(split_on(s, sep).last()) =~= split_on(s, sep));
    } else {
        let u = t.drop_last();
        assert(!u.contains(sep)) by {
            if u.contains(sep) {
                let i = choose|i: int| 0 <= i < u.len() && u[i] == sep;
                assert(t[i] == sep);
            }
        }
        lemma_split_behind(s, u, sep);
        assert((s + t).drop_last() =~= s + u);
        assert(t.contains(t.last()));
        let rest = split_on(s + u, sep);
        assert(rest.drop_last() =~= split_on(s, sep).drop_last());
        assert(rest.last().push(t.last()) =~= split_on(s, sep).last() + t);
    }
}

proof fn lemma_decimal(n: nat)
    ensures
        decimal(n).len() > 0,
        all_digits(decimal(n)),
        digits_value(decimal(n)) == n,
    decreases n,
{
    let s = decimal(n);
    if n < 10 {
        assert(s.drop_last() =~= Seq::<char>::empty());
        assert(digits_value(Seq::<char>::empty()) == 0);
        assert(s.last() == digit_char(n as int));
    } else {
        lemma_decimal(n / 10);
        assert(s.drop_last() =~= decimal(n / 10));
        assert forall|i: int| 0 <= i < s.len() implies is_digit(#[trigger] s[i]) by {
            if i < s.len() - 1 {
                assert(is_digit(decimal(n / 10)[i]));
            }
        }
        assert(s.last() == digit_char((n % 10) as int));
    }
}

/// A number that is written is read back as itself, with its sign, and white space
/// around it does not matter.
pub proof fn a_written_number_reads_back(n: int)
    ensures
        integer_of(signed(n)) == Some(n),
        i64::MIN <= n <= i64::MAX ==> i64_of(signed(n)) == Some(n as i64),
        0 <= n <= u32::MAX ==> u32_of(signed(n)) == Some(n as u32),
        n > u32::MAX || n < 0 ==> u32_of(signed(n)) is None,
        trimmed(signed(n)) == signed(n),
{
    reveal_strlit("-");
    let s = signed(n);
    if n < 0 {
        lemma_decimal((-n) as nat);
        assert(s.skip(1) =~= decimal((-n) as nat));
        assert(s[0] == '-');
        assert(is_digit(decimal((-n) as nat).last()));
        assert(s.last() == decimal((-n) as nat).last());
    } else {
        lemma_decimal(n as nat);
        assert(is_digit(s[0]));
        assert(is_digit(s.last()));
    }
}

/// Trimming takes white space away at both ends, and nothing else: what is left
/// neither begins nor ends with it, and stands in the text between white space.
pub proof fn trimming_takes_white_space_alone(s: Seq<char>)
    ensures
        trimmed(s).len() > 0 ==> !is_space(trimmed(s)[0]) && !is_space(trimmed(s).last()),
        exists|a: int, b: int|
            0 <= a <= b <= s.len() && trimmed(s) == #[trigger] s.subrange(a, b) && (forall|i: int|
                0 <= i < a || b <= i < s.len() ==> is_space(#[trigger] s[i])),
{
    let a = lemma_trimmed_start(s);
    let t = s.skip(a);
    let n = lemma_trimmed_end(t);
    assert(s.subrange(a, a + n) =~= t.take(n));
    assert(trimmed(s) == s.subrange(a, a + n));
    assert forall|i: int| 0 <= i < a || a + n <= i < s.len() implies is_space(#[trigger] s[i]) by {
        if i >= a {
            assert(t[i - a] == s[i]);
        }
    }
}

proof fn lemma_trimmed_start(s: Seq<char>) -> (a: int)
    ensures
        0 <= a <= s.len(),
        trimmed_start(s) == s.skip(a),
        a < s.len() ==> !is_space(s[a]),
        forall|i: int| 0 <= i < a ==> is_space(#[trigger] s[i]),
    decreases s.len(),
{
    if s.len() > 0 && is_space(s[0]) {
        let a = lemma_trimmed_start(s.skip(1));
        assert(s.skip(1).skip(a) =~= s.skip(a + 1));
        assert forall|i: int| 0 <= i < a + 1 implies is_space(#[trigger] s[i]) by {
            if i > 0 {
                assert(s.skip(1)[i - 1] == s[i]);
            }
        }
        assert(a < s.skip(1).len() ==> s.skip(1)[a] == s[a + 1]);
        a + 1
    } else {
        assert(s.skip(0) =~= s);
        0
    }
}

proof fn lemma_trimmed_end(s: Seq<char>) -> (n: int)
    ensures
        0 <= n <= s.len(),
        trimmed_end(s) == s.take(n),
        n > 0 ==> !is_space(s[n - 1]),
        n > 0 ==> s.take(n)[0] == s[0],
        forall|i: int| n <= i < s.len() ==> is_space(#[trigger] s[i]),
    decreases s.len(),
{
    if s.len() > 0 && is_space(s.last()) {
        let n = lemma_trimmed_end(s.drop_last());
        assert(s.drop_last().take(n) =~= s.take(n));
        assert forall|i: int| n <= i < s.len() implies is_space(#[trigger] s[i]) by {
            if i < s.len() - 1 {
                assert(s.drop_last()[i] == s[i]);
            }
        }
        n
    } else {
        assert(s.take(s.len() as int) =~= s);
        s.len() as int
    }
}

/// Nothing is replaced where the pattern does not stand, and a pattern between
/// texts that do not touch it is written as the replacement.
pub proof fn replacing_leaves_the_rest(s: Seq<char>, pat: Seq<char>, with: Seq<char>)
    requires
        pat.len() > 0,
    ensures
        !has_text(s, pat) ==> replaced(s, pat, with) == s,
        replaced(pat + s, pat, with) == with + replaced(s, pat, with),
        replaced(s, pat, pat) == s,
    decreases s.len(),
{
    a_beginning_has_a_rest(s, pat, s);
    assert((pat + s).skip(pat.len() as int) =~= s);
    if s.len() >= pat.len() {
        if begins(s, pat) {
            assert(s.skip(0) =~= s);
            assert(begins(s.skip(0), pat));
            replacing_leaves_the_rest(s.skip(pat.len() as int), pat, with);
            assert(pat + s.skip(pat.len() as int) =~= s);
        } else {
            if !has_text(s, pat) {
                let t = s.skip(1);
                assert(!has_text(t, pat)) by {
                    if has_text(t, pat) {
                        let i = choose|i: int| 0 <= i <= t.len() && #[trigger] begins(t.skip(i), pat);
                        assert(t.skip(i) =~= s.skip(i + 1));
                        assert(begins(s.skip(i + 1), pat));
                    }
                }
            }
            replacing_leaves_the_rest(s.skip(1), pat, with);
            assert(seq![s[0]] + s.skip(1) =~= s);
        }
    }
}

/// A number in decimal holds digits and, where it is negative, a minus in front,
/// and so no separator of a file.
pub proof fn a_number_has_no_colon(n: int)
    ensures
        !signed(n).contains(':'),
{
    reveal_strlit("-");
    if n < 0 {
        lemma_decimal((-n) as nat);
    } else {
        lemma_decimal(n as nat);
    }
    let s = signed(n);
    if s.contains(':') {
        let i = choose|i: int| 0 <= i < s.len() && s[i] == ':';
        if n < 0 {
            if i > 0 {
                assert(is_digit(decimal((-n) as nat)[i - 1]));
            }
        } else {
            assert(is_digit(decimal(n as nat)[i]));
        }
    }
}

/// Of the characters of ASCII the six are white space that leave a gap or end a
/// line, and no other is.
pub proof fn a_visible_character_is_no_white_space(c: char)
    requires
        (c as u32) < 128,
    ensures
        is_space(c) <==> c == ' ' || c == '\t' || c == '\n' || c == '\r' || c as u32 == 11 || c as u32
            == 12,
{
}

/// Lines that are written one below the other are read back as those lines, whether
/// each ends in a line feed or in a carriage return and a line feed, and the last
/// needs no end.
pub proof fn written_lines_read_back(lines: Seq<Seq<char>>)
    requires
        forall|i: int|
            0 <= i < lines.len() ==> !(#[trigger] lines[i]).contains('\n') && (lines[i].len() > 0
                ==> lines[i].last() != '\r'),
    ensures
        lines_of(join_with(lines.push(Seq::empty()), seq!['\n'])) == lines,
        lines_of(
            join_with(
                lines.map_values(|l: Seq<char>| l.push('\r')).push(Seq::empty()),
                seq!['\n'],
            ),
        ) == lines,
        lines.len() > 0 && lines.last().len() > 0 ==> lines_of(join_with(lines, seq!['\n'])) == lines,
{
    let none = Seq::<char>::empty();
    let plain = lines.push(none);
    assert forall|i: int| 0 <= i < plain.len() implies !(#[trigger] plain[i]).contains('\n') by {
        if i < lines.len() {
            assert(plain[i] == lines[i]);
        }
    }
    join_then_split(plain, '\n');
    assert(plain.drop_last() =~= lines);
    assert(lines.map_values(|p: Seq<char>| without_cr(p)) =~= lines);
    let marked = lines.map_values(|l: Seq<char>| l.push('\r'));
    let crlf = marked.push(none);
    assert forall|i: int| 0 <= i < crlf.len() implies !(#[trigger] crlf[i]).contains('\n') by {
        if i < lines.len() {
            assert(crlf[i] == lines[i].push('\r'));
            if crlf[i].contains('\n') {
                let j = choose|j: int| 0 <= j < crlf[i].len() && crlf[i][j] == '\n';
                assert(lines[i][j] == '\n');
            }
        }
    }
    join_then_split(crlf, '\n');
    assert(crlf.drop_last() =~= marked);
    assert forall|i: int| 0 <= i < lines.len() implies without_cr(#[trigger] marked[i]) == lines[i] by {
        assert(lines[i].push('\r').drop_last() =~= lines[i]);
    }
    assert(marked.map_values(|p: Seq<char>| without_cr(p)) =~= lines);
    if lines.len() > 0 && lines.last().len() > 0 {
        join_then_split(lines, '\n');
        assert(lines.drop_last().map_values(|p: Seq<char>| without_cr(p)) =~= lines.drop_last()) by {
            assert forall|i: int| 0 <= i < lines.len() - 1 implies without_cr(
                #[trigger] lines.drop_last()[i],
            ) == lines.drop_last()[i] by {
                assert(lines.drop_last()[i] == lines[i]);
            }
        }
        assert(lines.drop_last().push(lines.last()) =~= lines);
    }
}

/// The first character in which two texts differ says which is before the other,
/// and a beginning is before what goes on.
pub proof fn the_first_difference_decides(
    common: Seq<char>,
    c: char,
    d: char,
    s: Seq<char>,
    t: Seq<char>,
)
    ensures
        c < d ==> precedes(common + seq![c] + s, common + seq![d] + t),
        c < d ==> !precedes(common + seq![d] + t, common + seq![c] + s),
        precedes(common, common + seq![c] + s),
        !precedes(common + seq![c] + s, common),
    decreases common.len(),
{
    let a = common + seq![c] + s;
    let b = common + seq![d] + t;
    if common.len() > 0 {
        let rest = common.skip(1);
        the_first_difference_decides(rest, c, d, s, t);
        assert(a.skip(1) =~= rest + seq![c] + s);
        assert(b.skip(1) =~= rest + seq![d] + t);
        assert(a[0] == common[0] && b[0] == common[0]);
    } else {
        assert(a[0] == c && b[0] == d);
    }
}

} // verus!
