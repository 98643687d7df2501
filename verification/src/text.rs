//! Operations on text, stated over the sequence of characters that a string holds.
use vstd::prelude::*;

verus! {

/// `String::push`: appends the character to the end of the string.
pub assume_specification[ String::push ](s: &mut String, c: char)
    ensures
        final(s)@ == old(s)@.push(c),
;

/// The optional text as an optional sequence of characters.
pub open spec fn option_view(t: Option<String>) -> Option<Seq<char>> {
    match t {
        Some(t) => Some(t@),
        None => None,
    }
}

/// Whether the character has the Unicode property `White_Space`.
pub open spec fn is_white_space(c: char) -> bool {
    let n = c as int;
    ||| 0x09 <= n <= 0x0D
    ||| n == 0x20
    ||| n == 0x85
    ||| n == 0xA0
    ||| n == 0x1680
    ||| 0x2000 <= n <= 0x200A
    ||| n == 0x2028
    ||| n == 0x2029
    ||| n == 0x202F
    ||| n == 0x205F
    ||| n == 0x3000
}

/// Decides [`is_white_space`].
pub fn white_space(c: char) -> (r: bool)
    ensures
        r == is_white_space(c),
{
    let n: u32 = c as u32;
    (0x09 <= n && n <= 0x0D) || n == 0x20 || n == 0x85 || n == 0xA0 || n == 0x1680 || (0x2000 <= n
        && n <= 0x200A) || n == 0x2028 || n == 0x2029 || n == 0x202F || n == 0x205F || n == 0x3000
}

/// The characters of `s` as a vector.
pub fn chars_of(s: &str) -> (r: Vec<char>)
    ensures
        r@ == s@,
{
    let mut out: Vec<char> = Vec::new();
    for c in it: s.chars()
        invariant
            out@ == it.seq().take(it.index() as int),
            it.seq() == s@,
    {
        out.push(c);
    }
    out
}

/// The text that the characters `v[from..to]` spell.
pub fn text_of(v: &Vec<char>, from: usize, to: usize) -> (r: String)
    requires
        from <= to <= v@.len(),
    ensures
        r@ == v@.subrange(from as int, to as int),
{
    let mut out = String::new();
    let mut i: usize = from;
    while i < to
        invariant
            from <= i <= to <= v@.len(),
            out@ == v@.subrange(from as int, i as int),
        decreases to - i,
    {
        out.push(v[i]);
        i = i + 1;
    }
    out
}

/// Whether the two texts are the same.
pub fn same_text(a: &str, b: &str) -> (r: bool)
    ensures
        r == (a@ == b@),
{
    let x = chars_of(a);
    let y = chars_of(b);
    if x.len() != y.len() {
        return false;
    }
    let mut i: usize = 0;
    while i < x.len()
        invariant
            x@ == a@,
            y@ == b@,
            x@.len() == y@.len(),
            i <= x@.len(),
            forall|j: int| 0 <= j < i ==> x@[j] == y@[j],
        decreases x@.len() - i,
    {
        if x[i] != y[i] {
            assert(a@[i as int] != b@[i as int]);
            return false;
        }
        i = i + 1;
    }
    assert(a@ =~= b@);
    true
}

/// Whether `s` begins with `prefix`.
pub open spec fn begins_with(s: Seq<char>, prefix: Seq<char>) -> bool {
    prefix.len() <= s.len() && s.take(prefix.len() as int) == prefix
}

/// `s` without `prefix` at its front, or all of `s` where it does not begin with `prefix`.
pub open spec fn without_prefix(s: Seq<char>, prefix: Seq<char>) -> Seq<char> {
    if begins_with(s, prefix) {
        s.skip(prefix.len() as int)
    } else {
        s
    }
}

/// Decides whether `k` stands in `v` at position `at`.
fn stands_at(v: &Vec<char>, k: &Vec<char>, at: usize) -> (r: bool)
    requires
        at + k@.len() <= v@.len(),
    ensures
        r == (v@.subrange(at as int, at + k@.len()) == k@),
{
    let n: usize = v.len();
    let mut j: usize = 0;
    while j < k.len()
        invariant
            n == v@.len(),
            at + k@.len() <= n,
            j <= k@.len(),
            forall|i: int| 0 <= i < j ==> v@[at + i] == k@[i],
        decreases k@.len() - j,
    {
        if v[at + j] != k[j] {
            assert(v@.subrange(at as int, at + k@.len())[j as int] != k@[j as int]);
            return false;
        }
        j = j + 1;
    }
    assert(v@.subrange(at as int, at + k@.len()) =~= k@);
    true
}

/// Computes [`without_prefix`].
pub fn strip_prefix(s: &str, prefix: &str) -> (r: String)
    ensures
        r@ == without_prefix(s@, prefix@),
{
    let v = chars_of(s);
    let k = chars_of(prefix);
    if k.len() <= v.len() && stands_at(&v, &k, 0) {
        assert(v@.subrange(0, k@.len() as int) == v@.take(k@.len() as int));
        text_of(&v, k.len(), v.len())
    } else {
        assert(k@.len() <= v@.len() ==> v@.subrange(0, k@.len() as int) == v@.take(
            k@.len() as int,
        ));
        assert(v@.subrange(0, v@.len() as int) == v@);
        text_of(&v, 0, v.len())
    }
}

/// Whether `k` occurs somewhere in `s` as one piece.
pub open spec fn occurs_in(k: Seq<char>, s: Seq<char>) -> bool {
    exists|i: int| 0 <= i && i + k.len() <= s.len() && #[trigger] s.subrange(i, i + k.len()) == k
}

/// Decides [`occurs_in`].
pub fn contains_text(s: &str, k: &str) -> (r: bool)
    ensures
        r == occurs_in(k@, s@),
{
    let v = chars_of(s);
    let w = chars_of(k);
    if w.len() > v.len() {
        return false;
    }
    let last: usize = v.len() - w.len();
    let mut at: usize = 0;
    loop
        invariant
            v@ == s@,
            w@ == k@,
            last + w@.len() == v@.len(),
            at <= last,
            forall|i: int| 0 <= i < at ==> #[trigger] s@.subrange(i, i + k@.len()) != k@,
        decreases last - at,
    {
        if stands_at(&v, &w, at) {
            return true;
        }
        if at == last {
            return false;
        }
        at = at + 1;
    }
}

/// `s` without the characters at its front that `p` holds of.
pub open spec fn trim_front(s: Seq<char>, p: spec_fn(char) -> bool) -> Seq<char>
    decreases s.len(),
{
    if s.len() > 0 && p(s[0]) {
        trim_front(s.drop_first(), p)
    } else {
        s
    }
}

/// `s` without the characters at its back that `p` holds of.
pub open spec fn trim_back(s: Seq<char>, p: spec_fn(char) -> bool) -> Seq<char>
    decreases s.len(),
{
    if s.len() > 0 && p(s.last()) {
        trim_back(s.drop_last(), p)
    } else {
        s
    }
}

/// `s` without white space at either end.
pub open spec fn trimmed(s: Seq<char>) -> Seq<char> {
    let p = |c: char| is_white_space(c);
    trim_back(trim_front(s, p), p)
}

/// What is left of a text without white space at its ends does not begin or end with white space.
pub proof fn lemma_trimmed_ends(s: Seq<char>)
    ensures
        trimmed(s).len() > 0 ==> !is_white_space(trimmed(s)[0]) && !is_white_space(
            trimmed(s).last(),
        ),
{
    let p = |c: char| is_white_space(c);
    lemma_trim_front_end(s, p);
    lemma_trim_back_end(trim_front(s, p), p);
}

/// What is left after trimming the front does not begin with what was trimmed.
proof fn lemma_trim_front_end(s: Seq<char>, p: spec_fn(char) -> bool)
    ensures
        trim_front(s, p).len() > 0 ==> !p(trim_front(s, p)[0]),
    decreases s.len(),
{
    if s.len() > 0 && p(s[0]) {
        lemma_trim_front_end(s.drop_first(), p);
    }
}

/// What is left after trimming the back does not end with what was trimmed, and is a prefix.
proof fn lemma_trim_back_end(s: Seq<char>, p: spec_fn(char) -> bool)
    ensures
        trim_back(s, p).len() > 0 ==> !p(trim_back(s, p).last()),
        trim_back(s, p).len() <= s.len(),
        trim_back(s, p) == s.take(trim_back(s, p).len() as int),
    decreases s.len(),
{
    if s.len() > 0 && p(s.last()) {
        lemma_trim_back_end(s.drop_last(), p);
        let n = trim_back(s, p).len() as int;
        assert(s.drop_last().take(n) == s.take(n));
    } else {
        assert(s.take(s.len() as int) == s);
    }
}

/// Trimming a text all of white space leaves nothing, and trimming any other leaves something.
pub proof fn lemma_trimmed_empty(s: Seq<char>)
    ensures
        trimmed(s).len() == 0 <==> (forall|i: int| 0 <= i < s.len() ==> is_white_space(s[i])),
{
    let p = |c: char| is_white_space(c);
    lemma_trim_front_empty(s, p);
    lemma_trim_front_end(s, p);
    lemma_trim_back_empty(trim_front(s, p), p);
}

/// Trimming the front leaves nothing just where all is trimmed.
proof fn lemma_trim_front_empty(s: Seq<char>, p: spec_fn(char) -> bool)
    ensures
        trim_front(s, p).len() == 0 <==> (forall|i: int| 0 <= i < s.len() ==> p(s[i])),
    decreases s.len(),
{
    if s.len() > 0 && p(s[0]) {
        let rest = s.drop_first();
        lemma_trim_front_empty(rest, p);
        assert(forall|i: int| 0 <= i < rest.len() ==> rest[i] == s[i + 1]);
        if forall|i: int| 0 <= i < rest.len() ==> p(rest[i]) {
            assert forall|i: int| 0 <= i < s.len() implies p(s[i]) by {
                if i > 0 {
                    assert(p(rest[i - 1]));
                }
            }
        }
    }
}

/// Trimming the back leaves nothing just where all is trimmed.
proof fn lemma_trim_back_empty(s: Seq<char>, p: spec_fn(char) -> bool)
    ensures
        trim_back(s, p).len() == 0 <==> (forall|i: int| 0 <= i < s.len() ==> p(s[i])),
    decreases s.len(),
{
    if s.len() > 0 && p(s.last()) {
        let rest = s.drop_last();
        lemma_trim_back_empty(rest, p);
        if forall|i: int| 0 <= i < rest.len() ==> p(rest[i]) {
            assert forall|i: int| 0 <= i < s.len() implies p(s[i]) by {
                if i < rest.len() {
                    assert(p(rest[i]));
                }
            }
        }
    }
}

/// Where something is left of `b` without its white space, trimming `a + b` at the back trims
/// `b`.
pub proof fn lemma_trim_back_append(a: Seq<char>, b: Seq<char>)
    requires
        trimmed(b).len() > 0,
    ensures
        trim_back(a + b, |c: char| is_white_space(c)) == a + trim_back(
            b,
            |c: char| is_white_space(c),
        ),
        trim_back(b, |c: char| is_white_space(c)).len() > 0,
{
    let p = |c: char| is_white_space(c);
    lemma_trimmed_empty(b);
    lemma_trim_back_empty(b, p);
    lemma_trim_back_append_by(a, b, p);
}

proof fn lemma_trim_back_append_by(a: Seq<char>, b: Seq<char>, p: spec_fn(char) -> bool)
    requires
        trim_back(b, p).len() > 0,
    ensures
        trim_back(a + b, p) == a + trim_back(b, p),
    decreases b.len(),
{
    if b.len() > 0 && p(b.last()) {
        lemma_trim_back_append_by(a, b.drop_last(), p);
        assert((a + b).drop_last() == a + b.drop_last());
    }
}

/// What is left of a text without white space at its ends is made of characters of the text.
pub proof fn lemma_trimmed_is_part(s: Seq<char>)
    ensures
        forall|i: int| 0 <= i < trimmed(s).len() ==> s.contains(#[trigger] trimmed(s)[i]),
{
    let p = |c: char| is_white_space(c);
    lemma_trim_front_is_part(s, p);
    let rest = trim_front(s, p);
    lemma_trim_back_end(rest, p);
    assert forall|i: int| 0 <= i < trimmed(s).len() implies s.contains(
        #[trigger] trimmed(s)[i],
    ) by {
        assert(trimmed(s)[i] == rest[i]);
    }
}

/// What is left after trimming the front is made of characters of the text.
proof fn lemma_trim_front_is_part(s: Seq<char>, p: spec_fn(char) -> bool)
    ensures
        forall|i: int|
            0 <= i < trim_front(s, p).len() ==> s.contains(#[trigger] trim_front(s, p)[i]),
    decreases s.len(),
{
    if s.len() > 0 && p(s[0]) {
        let rest = s.drop_first();
        lemma_trim_front_is_part(rest, p);
        assert forall|i: int| 0 <= i < trim_front(s, p).len() implies s.contains(
            #[trigger] trim_front(s, p)[i],
        ) by {
            let j = choose|j: int| 0 <= j < rest.len() && rest[j] == trim_front(rest, p)[i];
            assert(s[j + 1] == rest[j]);
        }
    }
}

/// `s` without double quotes at either end.
pub open spec fn unquoted(s: Seq<char>) -> Seq<char> {
    let p = |c: char| c == '"';
    trim_back(trim_front(s, p), p)
}

/// Drops from both ends of `s` the characters that `f` accepts.
fn trim_by<F: Fn(char) -> bool>(
    s: &str,
    f: F,
    Ghost(p): Ghost<spec_fn(char) -> bool>,
) -> (r: String)
    requires
        forall|c: char| f.requires((c,)),
        forall|c: char, b: bool| f.ensures((c,), b) ==> b == p(c),
    ensures
        r@ == trim_back(trim_front(s@, p), p),
{
    let v = chars_of(s);
    let mut from: usize = 0;
    assert(v@.skip(0) == v@);
    while from < v.len() && f(v[from])
        invariant
            forall|c: char| f.requires((c,)),
            forall|c: char, b: bool| f.ensures((c,), b) ==> b == p(c),
            from <= v@.len(),
            trim_front(v@.skip(from as int), p) == trim_front(v@, p),
        ensures
            from <= v@.len(),
            trim_front(v@, p) == v@.skip(from as int),
        decreases v@.len() - from,
    {
        assert(v@.skip(from as int).drop_first() == v@.skip(from + 1));
        from = from + 1;
    }
    let mut to: usize = v.len();
    assert(v@.subrange(from as int, to as int) == v@.skip(from as int));
    while from < to && f(v[to - 1])
        invariant
            forall|c: char| f.requires((c,)),
            forall|c: char, b: bool| f.ensures((c,), b) ==> b == p(c),
            from <= to <= v@.len(),
            trim_back(v@.subrange(from as int, to as int), p) == trim_back(
                v@.skip(from as int),
                p,
            ),
        ensures
            from <= to <= v@.len(),
            trim_back(v@.skip(from as int), p) == v@.subrange(from as int, to as int),
        decreases to,
    {
        assert(v@.subrange(from as int, to as int).drop_last() == v@.subrange(
            from as int,
            to - 1,
        ));
        to = to - 1;
    }
    text_of(&v, from, to)
}

/// Computes [`trimmed`].
pub fn trim(s: &str) -> (r: String)
    ensures
        r@ == trimmed(s@),
{
    trim_by(s, white_space, Ghost(|c: char| is_white_space(c)))
}

/// Decides whether the character is a double quote.
fn double_quote(c: char) -> (r: bool)
    ensures
        r == (c == '"'),
{
    c == '"'
}

/// Computes [`unquoted`].
pub fn trim_quotes(s: &str) -> (r: String)
    ensures
        r@ == unquoted(s@),
{
    trim_by(s, double_quote, Ghost(|c: char| c == '"'))
}

/// The first line of `s`: what stands before the first line feed, without a carriage return
/// right in front of it; all of `s` where there is no line feed.
pub open spec fn first_line_of(s: Seq<char>) -> Seq<char> {
    if s.contains('\n') {
        let line = s.take(s.index_of_first('\n')->0);
        if line.len() > 0 && line.last() == '\r' {
            line.drop_last()
        } else {
            line
        }
    } else {
        s
    }
}

/// A first line has no line feed in it.
pub proof fn lemma_first_line_has_no_line_feed(s: Seq<char>)
    ensures
        !first_line_of(s).contains('\n'),
{
    if s.contains('\n') {
        s.index_of_first_ensures('\n');
    }
}

/// Computes [`first_line_of`].
pub fn first_line(s: &str) -> (r: String)
    ensures
        r@ == first_line_of(s@),
{
    let v = chars_of(s);
    let mut i: usize = 0;
    while i < v.len()
        invariant
            v@ == s@,
            i <= v@.len(),
            forall|j: int| 0 <= j < i ==> v@[j] != '\n',
        decreases v@.len() - i,
    {
        if v[i] == '\n' {
            proof {
                s@.index_of_first_ensures('\n');
                assert(s@[i as int] == '\n');
            }
            if i > 0 && v[i - 1] == '\r' {
                assert(s@.take(i as int).drop_last() == v@.subrange(0, i - 1));
                return text_of(&v, 0, i - 1);
            }
            assert(s@.take(i as int) == v@.subrange(0, i as int));
            return text_of(&v, 0, i);
        }
        i = i + 1;
    }
    assert(v@.subrange(0, v@.len() as int) == v@);
    text_of(&v, 0, v.len())
}

/// The decimal digits of `n`, the most significant first.
pub open spec fn decimal(n: nat) -> Seq<char>
    decreases n,
{
    if n < 10 {
        seq![digit_char(n)]
    } else {
        decimal(n / 10).push(digit_char(n % 10))
    }
}

/// The character of a decimal digit.
pub open spec fn digit_char(d: nat) -> char {
    ('0' as int + d) as char
}

/// The decimal notation of `n`, with a minus sign where it is negative.
pub open spec fn signed_decimal(n: int) -> Seq<char> {
    if n < 0 {
        seq!['-'] + decimal((-n) as nat)
    } else {
        decimal(n as nat)
    }
}

/// Different numbers have different digits.
proof fn lemma_decimal_injective(a: nat, b: nat)
    requires
        decimal(a) == decimal(b),
    ensures
        a == b,
    decreases a,
{
    lemma_decimal_digits(a);
    lemma_decimal_digits(b);
    let x = decimal(a);
    let y = decimal(b);
    assert(x.last() == digit_char(a % 10));
    assert(y.last() == digit_char(b % 10));
    assert(a % 10 == b % 10);
    if a >= 10 && b >= 10 {
        assert(x.drop_last() == decimal(a / 10));
        assert(y.drop_last() == decimal(b / 10));
        lemma_decimal_injective(a / 10, b / 10);
    } else if a >= 10 {
        lemma_decimal_digits(a / 10);
    } else if b >= 10 {
        lemma_decimal_digits(b / 10);
    }
}

/// A number has at least one digit, and all that stands in its notation is digits.
pub proof fn lemma_decimal_digits(n: nat)
    ensures
        decimal(n).len() > 0,
        forall|i: int| 0 <= i < decimal(n).len() ==> '0' <= #[trigger] decimal(n)[i] <= '9',
    decreases n,
{
    if n >= 10 {
        lemma_decimal_digits(n / 10);
    }
}

/// Different whole numbers have different notations.
pub proof fn lemma_signed_decimal_injective(a: int, b: int)
    requires
        signed_decimal(a) == signed_decimal(b),
    ensures
        a == b,
{
    let x = signed_decimal(a);
    let y = signed_decimal(b);
    if a < 0 {
        assert(x[0] == '-');
        assert(x.skip(1) == decimal((-a) as nat));
    } else {
        lemma_decimal_digits(a as nat);
    }
    if b < 0 {
        assert(y[0] == '-');
        assert(y.skip(1) == decimal((-b) as nat));
    } else {
        lemma_decimal_digits(b as nat);
    }
    if a < 0 && b < 0 {
        lemma_decimal_injective((-a) as nat, (-b) as nat);
    } else if a >= 0 && b >= 0 {
        lemma_decimal_injective(a as nat, b as nat);
    }
}

/// Appends the decimal digits of `n`.
pub fn append_decimal(out: &mut String, n: u64)
    ensures
        final(out)@ == old(out)@ + decimal(n as nat),
    decreases n,
{
    if n >= 10 {
        append_decimal(out, n / 10);
    }
    let d: u8 = (n % 10) as u8;
    let c: char = (48u8 + d) as char;
    out.push(c);
}

/// Appends the decimal notation of `n`.
pub fn append_signed(out: &mut String, n: i64)
    ensures
        final(out)@ == old(out)@ + signed_decimal(n as int),
{
    if n < 0 {
        out.push('-');
        let below: u64 = (-(n + 1)) as u64;
        append_decimal(out, below + 1);
    } else {
        append_decimal(out, n as u64);
    }
}

/// At most the first `n` characters of `s`.
pub open spec fn at_most(s: Seq<char>, n: nat) -> Seq<char> {
    if s.len() > n {
        s.take(n as int)
    } else {
        s
    }
}

/// A prefix is taken off where the text begins with it, and only there.
pub proof fn law_prefix_is_taken_off_once(s: Seq<char>, prefix: Seq<char>, rest: Seq<char>)
    ensures
        without_prefix(prefix + rest, prefix) == rest,
        begins_with(s, prefix) <==> exists|q: Seq<char>| s == #[trigger] (prefix + q),
        (forall|q: Seq<char>| s != #[trigger] (prefix + q)) ==> without_prefix(s, prefix) == s,
{
    let n = prefix.len() as int;
    let whole = prefix + rest;
    assert(whole.take(n) =~= prefix);
    assert(whole.skip(n) =~= rest);
    if begins_with(s, prefix) {
        assert(s =~= prefix + s.skip(n));
    }
    if exists|q: Seq<char>| s == #[trigger] (prefix + q) {
        let q = choose|q: Seq<char>| s == #[trigger] (prefix + q);
        assert(s.take(n) =~= prefix);
    }
}

/// A piece occurs in a text just where the text is the piece with something before and behind it.
pub proof fn law_occurring_is_standing_between(k: Seq<char>, s: Seq<char>)
    ensures
        occurs_in(k, s) <==> exists|before: Seq<char>, behind: Seq<char>|
            s == #[trigger] (before + k + behind),
{
    if occurs_in(k, s) {
        let i = choose|i: int|
            0 <= i && i + k.len() <= s.len() && #[trigger] s.subrange(i, i + k.len()) == k;
        assert(s =~= s.take(i) + k + s.skip(i + k.len()));
    }
    if exists|before: Seq<char>, behind: Seq<char>| s == #[trigger] (before + k + behind) {
        let (before, behind) = choose|before: Seq<char>, behind: Seq<char>|
            s == #[trigger] (before + k + behind);
        let at = before.len() as int;
        assert(s.subrange(at, at + k.len()) =~= k);
    }
}

/// What `p` holds of at the front, and nothing else, is trimmed there.
pub proof fn lemma_trim_front_of(lead: Seq<char>, s: Seq<char>, p: spec_fn(char) -> bool)
    requires
        forall|i: int| 0 <= i < lead.len() ==> p(#[trigger] lead[i]),
        s.len() > 0 ==> !p(s[0]),
    ensures
        trim_front(lead + s, p) == s,
    decreases lead.len(),
{
    if lead.len() > 0 {
        assert(p(lead[0]));
        assert((lead + s)[0] == lead[0]);
        assert((lead + s).drop_first() =~= lead.drop_first() + s);
        lemma_trim_front_of(lead.drop_first(), s, p);
    } else {
        assert(lead + s =~= s);
    }
}

/// What stands behind a character that `p` does not hold of is trimmed at the back on its own.
pub proof fn lemma_trim_back_behind(a: Seq<char>, b: Seq<char>, p: spec_fn(char) -> bool)
    requires
        a.len() > 0,
        !p(a.last()),
    ensures
        trim_back(a + b, p) == a + trim_back(b, p),
    decreases b.len(),
{
    if b.len() > 0 {
        assert((a + b).last() == b.last());
        if p(b.last()) {
            assert((a + b).drop_last() =~= a + b.drop_last());
            lemma_trim_back_behind(a, b.drop_last(), p);
        }
    } else {
        assert(a + b =~= a);
        assert(a + trim_back(b, p) =~= a);
    }
}

/// Nothing is left at the back where `p` holds of all.
pub proof fn lemma_trim_back_all(b: Seq<char>, p: spec_fn(char) -> bool)
    requires
        forall|i: int| 0 <= i < b.len() ==> p(#[trigger] b[i]),
    ensures
        trim_back(b, p) == Seq::<char>::empty(),
    decreases b.len(),
{
    if b.len() > 0 {
        assert(p(b[b.len() - 1]));
        lemma_trim_back_all(b.drop_last(), p);
    }
}

/// What is left after trimming the back is the front of the text.
pub proof fn lemma_trim_back_is_prefix(s: Seq<char>, p: spec_fn(char) -> bool)
    ensures
        trim_back(s, p).len() <= s.len(),
        trim_back(s, p) == s.take(trim_back(s, p).len() as int),
{
    lemma_trim_back_end(s, p);
}

/// What is left after trimming the front is the back of the text.
proof fn lemma_trim_front_is_suffix(s: Seq<char>, p: spec_fn(char) -> bool)
    ensures
        trim_front(s, p).len() <= s.len(),
        trim_front(s, p) == s.skip(s.len() - trim_front(s, p).len()),
    decreases s.len(),
{
    if s.len() > 0 && p(s[0]) {
        let rest = s.drop_first();
        lemma_trim_front_is_suffix(rest, p);
        let n = trim_front(s, p).len();
        assert(rest.skip(rest.len() - n) =~= s.skip(s.len() - n));
    } else {
        assert(s.skip(0) =~= s);
    }
}

/// What is left after trimming both ends stands in the text as one piece.
proof fn lemma_trim_occurs(s: Seq<char>, p: spec_fn(char) -> bool)
    ensures
        occurs_in(trim_back(trim_front(s, p), p), s),
{
    let front = trim_front(s, p);
    let k = trim_back(front, p);
    lemma_trim_front_is_suffix(s, p);
    lemma_trim_back_is_prefix(front, p);
    let at = s.len() - front.len();
    assert(s.subrange(at, at + k.len()) =~= k);
}

/// What is left of a text without white space at its ends stands in the text as one piece.
pub proof fn lemma_trimmed_occurs(s: Seq<char>)
    ensures
        occurs_in(trimmed(s), s),
{
    lemma_trim_occurs(s, |c: char| is_white_space(c));
}

/// What is left of a text without double quotes at its ends stands in the text as one piece.
pub proof fn lemma_unquoted_occurs(s: Seq<char>)
    ensures
        occurs_in(unquoted(s), s),
{
    lemma_trim_occurs(s, |c: char| c == '"');
}

/// The first line of a text stands in the text as one piece.
pub proof fn lemma_first_line_occurs(s: Seq<char>)
    ensures
        occurs_in(first_line_of(s), s),
{
    if s.contains('\n') {
        s.index_of_first_ensures('\n');
    }
    let line = first_line_of(s);
    let n = line.len() as int;
    assert(s.subrange(0, 0 + n) =~= line);
}

/// What stands in a part of a text stands in the text.
pub proof fn lemma_occurs_through(k: Seq<char>, part: Seq<char>, s: Seq<char>)
    requires
        occurs_in(k, part),
        occurs_in(part, s),
    ensures
        occurs_in(k, s),
{
    let i = choose|i: int|
        0 <= i && i + k.len() <= part.len() && #[trigger] part.subrange(i, i + k.len()) == k;
    let j = choose|j: int|
        0 <= j && j + part.len() <= s.len() && #[trigger] s.subrange(j, j + part.len()) == part;
    assert(s.subrange(j + i, j + i + k.len()) =~= part.subrange(i, i + k.len()));
}

/// Trimming takes off the white space around a text, and keeps the text.
pub proof fn law_trimming_keeps_the_text(lead: Seq<char>, s: Seq<char>, trail: Seq<char>)
    requires
        forall|i: int| 0 <= i < lead.len() ==> is_white_space(#[trigger] lead[i]),
        forall|i: int| 0 <= i < trail.len() ==> is_white_space(#[trigger] trail[i]),
        s.len() > 0 ==> !is_white_space(s[0]) && !is_white_space(s.last()),
    ensures
        trimmed(lead + s + trail) == s,
{
    let p = |c: char| is_white_space(c);
    if s.len() > 0 {
        assert(lead + s + trail =~= lead + (s + trail));
        lemma_trim_front_of(lead, s + trail, p);
        lemma_trim_back_behind(s, trail, p);
        lemma_trim_back_all(trail, p);
        assert(s + Seq::<char>::empty() =~= s);
    } else {
        lemma_trimmed_empty(lead + s + trail);
        assert(trimmed(lead + s + trail) =~= s);
    }
}

/// Double quotes around a text are taken off, and the text is kept.
pub proof fn law_unquoting_keeps_the_text(open: Seq<char>, s: Seq<char>, close: Seq<char>)
    requires
        forall|i: int| 0 <= i < open.len() ==> #[trigger] open[i] == '"',
        forall|i: int| 0 <= i < close.len() ==> #[trigger] close[i] == '"',
        s.len() > 0,
        s[0] != '"',
        s.last() != '"',
    ensures
        unquoted(open + s + close) == s,
{
    let p = |c: char| c == '"';
    assert(open + s + close =~= open + (s + close));
    lemma_trim_front_of(open, s + close, p);
    lemma_trim_back_behind(s, close, p);
    lemma_trim_back_all(close, p);
    assert(s + Seq::<char>::empty() =~= s);
}

/// Nothing is left of double quotes alone.
pub proof fn law_quotes_alone_leave_nothing(quotes: Seq<char>)
    requires
        forall|i: int| 0 <= i < quotes.len() ==> #[trigger] quotes[i] == '"',
    ensures
        unquoted(quotes) == Seq::<char>::empty(),
{
    let p = |c: char| c == '"';
    lemma_trim_front_of(quotes, seq![], p);
    assert(quotes + seq![] =~= quotes);
    assert(trim_back(Seq::<char>::empty(), p) =~= Seq::<char>::empty());
}

/// The first line is what stands before the first line feed, whichever way the line is ended; a
/// text without a line feed is one line.
pub proof fn law_first_line_ends_at_the_line_feed(line: Seq<char>, rest: Seq<char>)
    requires
        !line.contains('\n'),
    ensures
        first_line_of(line) == line,
        line.len() == 0 || line.last() != '\r' ==> first_line_of(line + seq!['\n'] + rest) == line,
        first_line_of(line + seq!['\r', '\n'] + rest) == line,
{
    let plain = line + seq!['\n'] + rest;
    let n = line.len() as int;
    assert(plain[n] == '\n');
    plain.index_of_first_ensures('\n');
    let at = plain.index_of_first('\n')->0;
    assert(forall|j: int| 0 <= j < n ==> plain[j] == line[j]);
    assert(at == n);
    assert(plain.take(n) =~= line);
    let full = line + seq!['\r', '\n'] + rest;
    assert(full[n] == '\r' && full[n + 1] == '\n');
    full.index_of_first_ensures('\n');
    let at = full.index_of_first('\n')->0;
    assert(forall|j: int| 0 <= j < n ==> full[j] == line[j]);
    assert(at == n + 1);
    assert(full.take(n + 1).drop_last() =~= line);
}

/// The number that a row of decimal digits stands for.
pub open spec fn value_of(digits: Seq<char>) -> int
    decreases digits.len(),
{
    if digits.len() == 0 {
        0
    } else {
        value_of(digits.drop_last()) * 10 + (digits.last() as int - '0' as int)
    }
}

/// The digits of a number stand for it, and there is no zero in front of them.
pub proof fn law_digits_stand_for_the_number(n: nat)
    ensures
        value_of(decimal(n)) == n,
        forall|i: int| 0 <= i < decimal(n).len() ==> '0' <= #[trigger] decimal(n)[i] <= '9',
        decimal(n).len() > 0,
        decimal(n).len() > 1 ==> decimal(n)[0] != '0',
        n > 0 ==> signed_decimal(-n) == seq!['-'] + decimal(n),
        signed_decimal(n as int) == decimal(n),
    decreases n,
{
    lemma_decimal_digits(n);
    if n < 10 {
        assert(decimal(n).drop_last() =~= Seq::<char>::empty());
        assert(value_of(decimal(n)) == value_of(decimal(n).drop_last()) * 10 + n);
    } else {
        law_digits_stand_for_the_number(n / 10);
        assert(decimal(n).drop_last() =~= decimal(n / 10));
        assert(decimal(n)[0] == decimal(n / 10)[0]);
        if n / 10 < 10 {
            assert(decimal(n / 10)[0] == digit_char(n / 10));
        } else {
            lemma_decimal_digits(n / 10 / 10);
        }
    }
}

/// At most so many characters are kept, from the front, and no fewer than there are.
pub proof fn law_at_most_keeps_the_front(s: Seq<char>, n: nat)
    ensures
        s.len() <= n ==> at_most(s, n) == s,
        s.len() > n ==> at_most(s, n).len() == n,
        forall|i: int| 0 <= i < at_most(s, n).len() ==> #[trigger] at_most(s, n)[i] == s[i],
{
}

} // verus!
