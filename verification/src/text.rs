//! Text as sequences of characters: the handful of `str` operations the app
//! leans on (trimming, ASCII case folding, prefixes, searching), each stated
//! over `Seq<char>` and carried out with a loop that is proved to match.

use vstd::prelude::*;

verus! {

/// `String::push` appends one character.
pub assume_specification[ String::push ](s: &mut String, ch: char)
    ensures
        final(s)@ == old(s)@.push(ch),
;

/// Unicode `White_Space`, the set `char::is_whitespace` and `str::trim` use.
pub open spec fn is_ws(c: char) -> bool {
    let u = c as u32;
    (9 <= u <= 13) || u == 32 || u == 0x85 || u == 0xa0 || u == 0x1680 || (0x2000 <= u <= 0x200a)
        || u == 0x2028 || u == 0x2029 || u == 0x202f || u == 0x205f || u == 0x3000
}

/// The text with its leading whitespace taken off.
pub open spec fn trim_start(s: Seq<char>) -> Seq<char>
    decreases s.len(),
{
    if s.len() > 0 && is_ws(s[0]) {
        trim_start(s.drop_first())
    } else {
        s
    }
}

/// The text with its trailing whitespace taken off.
pub open spec fn trim_end(s: Seq<char>) -> Seq<char>
    decreases s.len(),
{
    if s.len() > 0 && is_ws(s.last()) {
        trim_end(s.drop_last())
    } else {
        s
    }
}

/// `str::trim`: whitespace off both ends.
pub open spec fn trim(s: Seq<char>) -> Seq<char> {
    trim_end(trim_start(s))
}

/// `char::to_ascii_lowercase`.
pub open spec fn lower_char(c: char) -> char {
    if 'A' <= c && c <= 'Z' {
        ((c as u32) + 32) as char
    } else {
        c
    }
}

/// `str::to_ascii_lowercase`.
pub open spec fn lower(s: Seq<char>) -> Seq<char> {
    s.map_values(|c: char| lower_char(c))
}

/// `str::trim` then `str::to_ascii_lowercase`: how the app reads a word off the wire.
pub open spec fn word(s: Seq<char>) -> Seq<char> {
    lower(trim(s))
}

/// `str::starts_with`.
pub open spec fn has_prefix(s: Seq<char>, p: Seq<char>) -> bool {
    p.len() <= s.len() && s.subrange(0, p.len() as int) == p
}

/// The needle occurs in the text at position `i`.
pub open spec fn occurs_at(s: Seq<char>, needle: Seq<char>, i: int) -> bool {
    0 <= i && i + needle.len() <= s.len() && s.subrange(i, i + needle.len()) == needle
}

/// `str::contains`.
pub open spec fn contains(s: Seq<char>, needle: Seq<char>) -> bool {
    exists|i: int| occurs_at(s, needle, i)
}

pub proof fn lemma_trim_start_prefix(s: Seq<char>, i: int)
    requires
        0 <= i <= s.len(),
        forall|k: int| 0 <= k < i ==> is_ws(#[trigger] s[k]),
    ensures
        trim_start(s) == trim_start(s.subrange(i, s.len() as int)),
    decreases i,
{
    if i > 0 {
        assert(is_ws(s[0]));
        let t = s.drop_first();
        assert forall|k: int| 0 <= k < i - 1 implies is_ws(#[trigger] t[k]) by {
            assert(t[k] == s[k + 1]);
        }
        lemma_trim_start_prefix(t, i - 1);
        assert(t.subrange(i - 1, t.len() as int) =~= s.subrange(i, s.len() as int));
    } else {
        assert(s.subrange(0, s.len() as int) =~= s);
    }
}

pub proof fn lemma_trim_end_suffix(s: Seq<char>, j: int)
    requires
        0 <= j <= s.len(),
        forall|k: int| j <= k < s.len() ==> is_ws(#[trigger] s[k]),
    ensures
        trim_end(s) == trim_end(s.subrange(0, j)),
    decreases s.len() - j,
{
    if j < s.len() {
        assert(is_ws(s.last()));
        let t = s.drop_last();
        assert forall|k: int| j <= k < t.len() implies is_ws(#[trigger] t[k]) by {
            assert(t[k] == s[k]);
        }
        lemma_trim_end_suffix(t, j);
        assert(t.subrange(0, j) =~= s.subrange(0, j));
    } else {
        assert(s.subrange(0, j) =~= s);
    }
}

/// The characters of a string, one by one.
pub fn chars_of(s: &str) -> (v: Vec<char>)
    ensures
        v@ == s@,
{
    let n = s.unicode_len();
    let mut v: Vec<char> = Vec::new();
    let mut i: usize = 0;
    while i < n
        invariant
            n == s@.len(),
            i <= n,
            v@ == s@.subrange(0, i as int),
        decreases n - i,
    {
        v.push(s.get_char(i));
        i = i + 1;
        assert(v@ =~= s@.subrange(0, i as int));
    }
    assert(v@ =~= s@);
    v
}

/// A string made of the characters `v[from..to]`.
pub fn string_of(v: &Vec<char>, from: usize, to: usize) -> (r: String)
    requires
        from <= to <= v@.len(),
    ensures
        r@ == v@.subrange(from as int, to as int),
{
    let mut r = String::new();
    let mut i = from;
    while i < to
        invariant
            from <= i <= to <= v@.len(),
            r@ == v@.subrange(from as int, i as int),
        decreases to - i,
    {
        r.push(v[i]);
        i = i + 1;
        assert(r@ =~= v@.subrange(from as int, i as int));
    }
    r
}

/// `str::trim`.
pub fn trimmed(s: &str) -> (r: String)
    ensures
        r@ == trim(s@),
{
    let v = chars_of(s);
    let n = v.len();
    let mut i: usize = 0;
    while i < n && is_ws_exec(v[i])
        invariant
            n == v@.len(),
            i <= n,
            forall|k: int| 0 <= k < i ==> is_ws(#[trigger] v@[k]),
        decreases n - i,
    {
        i = i + 1;
    }
    proof {
        lemma_trim_start_prefix(v@, i as int);
        let t = v@.subrange(i as int, n as int);
        if t.len() > 0 {
            assert(t[0] == v@[i as int]);
        }
        assert(trim_start(t) == t);
    }
    let mut j: usize = n;
    while j > i && is_ws_exec(v[j - 1])
        invariant
            n == v@.len(),
            i <= j <= n,
            forall|k: int| j <= k < n ==> is_ws(#[trigger] v@[k]),
        decreases j,
    {
        j = j - 1;
    }
    proof {
        let t = v@.subrange(i as int, n as int);
        lemma_trim_end_suffix(t, j - i);
        let u = t.subrange(0, j - i);
        assert(u =~= v@.subrange(i as int, j as int));
        if u.len() > 0 {
            assert(u.last() == v@[j - 1]);
        }
        assert(trim_end(u) == u);
    }
    string_of(&v, i, j)
}

pub fn is_ws_exec(c: char) -> (b: bool)
    ensures
        b == is_ws(c),
{
    let u = c as u32;
    (9 <= u && u <= 13) || u == 32 || u == 0x85 || u == 0xa0 || u == 0x1680 || (0x2000 <= u
        && u <= 0x200a) || u == 0x2028 || u == 0x2029 || u == 0x202f || u == 0x205f || u == 0x3000
}

pub fn lower_char_exec(c: char) -> (r: char)
    ensures
        r == lower_char(c),
{
    if 'A' <= c && c <= 'Z' {
        let u = (c as u8) + 32;
        u as char
    } else {
        c
    }
}


/// The decimal digits of a number, most significant first.
pub open spec fn decimal(n: nat) -> Seq<char>
    decreases n,
{
    if n < 10 {
        seq![digit_char(n)]
    } else {
        decimal(n / 10).push(digit_char(n % 10))
    }
}

pub open spec fn digit_char(d: nat) -> char {
    ((d + 48) as u32) as char
}

/// A signed number in decimal, with a minus sign when it is below zero.
pub open spec fn signed_decimal(n: int) -> Seq<char> {
    if n < 0 {
        seq!['-'] + decimal((-n) as nat)
    } else {
        decimal(n as nat)
    }
}

fn digit_exec(d: u64) -> (c: char)
    requires
        d < 10,
    ensures
        c == digit_char(d as nat),
{
    let b: u8 = (d as u8) + 48;
    b as char
}

/// Appends `n` in decimal.
pub fn push_decimal(s: &mut String, n: u64)
    ensures
        final(s)@ == old(s)@ + decimal(n as nat),
    decreases n,
{
    if n >= 10 {
        push_decimal(s, n / 10);
    }
    s.push(digit_exec(n % 10));
    if n < 10 {
        assert(final(s)@ =~= old(s)@ + decimal(n as nat));
    } else {
        assert(final(s)@ =~= old(s)@ + decimal(n as nat));
    }
}

/// Appends `n` in decimal, with a minus sign when it is below zero.
pub fn push_signed_decimal(s: &mut String, n: i64)
    ensures
        final(s)@ == old(s)@ + signed_decimal(n as int),
{
    if n < 0 {
        s.push('-');
        let m: u64 = (0i128 - (n as i128)) as u64;
        push_decimal(s, m);
        assert(final(s)@ =~= old(s)@ + signed_decimal(n as int));
    } else {
        push_decimal(s, n as u64);
    }
}

/// Appends a string.
pub fn push_str(s: &mut String, t: &str)
    ensures
        final(s)@ == old(s)@ + t@,
{
    s.append(t);
}

/// `str::to_ascii_lowercase`.
pub fn lowered(s: &str) -> (r: String)
    ensures
        r@ == lower(s@),
{
    let v = chars_of(s);
    let mut r = String::new();
    let mut i: usize = 0;
    while i < v.len()
        invariant
            i <= v@.len(),
            r@ == lower(v@.subrange(0, i as int)),
        decreases v@.len() - i,
    {
        r.push(lower_char_exec(v[i]));
        i = i + 1;
        assert(r@ =~= lower(v@.subrange(0, i as int)));
    }
    assert(v@.subrange(0, v@.len() as int) =~= v@);
    r
}

/// A word off the wire: trimmed, then ASCII lowercase.
pub fn word_of(s: &str) -> (r: String)
    ensures
        r@ == word(s@),
{
    let t = trimmed(s);
    lowered(t.as_str())
}

/// Whether two strings hold the same characters.
pub fn same(a: &str, b: &str) -> (r: bool)
    ensures
        r == (a@ == b@),
{
    let x = chars_of(a);
    let y = chars_of(b);
    if x.len() != y.len() {
        return false;
    }
    let mut i: usize = 0;
    while i < x.len()
        invariant
            x@ == a@,
            y@ == b@,
            x@.len() == y@.len(),
            i <= x@.len(),
            forall|k: int| 0 <= k < i ==> x@[k] == y@[k],
        decreases x@.len() - i,
    {
        if x[i] != y[i] {
            assert(x@[i as int] != y@[i as int]);
            return false;
        }
        i = i + 1;
    }
    assert(x@ =~= y@);
    true
}

/// `str::starts_with`.
pub fn starts_with(s: &str, p: &str) -> (r: bool)
    ensures
        r == has_prefix(s@, p@),
{
    let x = chars_of(s);
    let y = chars_of(p);
    if y.len() > x.len() {
        return false;
    }
    let mut i: usize = 0;
    while i < y.len()
        invariant
            x@ == s@,
            y@ == p@,
            y@.len() <= x@.len(),
            i <= y@.len(),
            forall|k: int| 0 <= k < i ==> x@[k] == y@[k],
        decreases y@.len() - i,
    {
        if x[i] != y[i] {
            assert(x@.subrange(0, y@.len() as int)[i as int] == x@[i as int]);
            return false;
        }
        i = i + 1;
    }
    assert(x@.subrange(0, y@.len() as int) =~= y@);
    true
}

/// Whether `needle` sits in `hay` at position `at`.
pub fn occurs_at_exec(hay: &Vec<char>, needle: &Vec<char>, at: usize) -> (r: bool)
    ensures
        r == occurs_at(hay@, needle@, at as int),
{
    if at > hay.len() || needle.len() > hay.len() - at {
        return false;
    }
    let mut i: usize = 0;
    while i < needle.len()
        invariant
            at + needle@.len() <= hay@.len(),
            hay@.len() <= usize::MAX,
            i <= needle@.len(),
            forall|k: int| 0 <= k < i ==> hay@[at + k] == needle@[k],
        decreases needle@.len() - i,
    {
        if hay[at + i] != needle[i] {
            assert(hay@.subrange(at as int, at + needle@.len())[i as int] != needle@[i as int]);
            return false;
        }
        i = i + 1;
    }
    assert(hay@.subrange(at as int, at + needle@.len()) =~= needle@);
    true
}

/// `str::contains`.
pub fn contains_str(s: &str, needle: &str) -> (r: bool)
    ensures
        r == contains(s@, needle@),
{
    let hay = chars_of(s);
    let pin = chars_of(needle);
    let mut at: usize = 0;
    while at < hay.len()
        invariant
            hay@ == s@,
            pin@ == needle@,
            at <= hay@.len(),
            forall|k: int| 0 <= k < at ==> !occurs_at(s@, needle@, k),
        decreases hay@.len() - at,
    {
        if occurs_at_exec(&hay, &pin, at) {
            return true;
        }
        at = at + 1;
    }
    if occurs_at_exec(&hay, &pin, at) {
        return true;
    }
    assert forall|k: int| !occurs_at(s@, needle@, k) by {
        if 0 <= k <= at {
        }
    }
    false
}

/// `String::clone` of a `&str`.
pub fn owned(s: &str) -> (r: String)
    ensures
        r@ == s@,
{
    s.to_owned()
}


/// Text that is already a word: no whitespace to trim and no capital to fold.
pub open spec fn is_plain(s: Seq<char>) -> bool {
    forall|k: int| 0 <= k < s.len() ==> !is_ws(#[trigger] s[k]) && lower_char(s[k]) == s[k]
}

/// A plain word reads as itself.
pub proof fn lemma_word_of_plain(s: Seq<char>)
    requires
        is_plain(s),
    ensures
        word(s) == s,
{
    if s.len() > 0 {
        assert(!is_ws(s[0]));
        assert(!is_ws(s.last()));
    }
    assert(trim_start(s) == s);
    assert(trim_end(s) == s);
    assert(lower(s) =~= s);
}


/// The characters of an optional string.
/// The characters of an optional string slice.
pub open spec fn str_opt(r: Option<&str>) -> Option<Seq<char>> {
    match r {
        Some(s) => Some(s@),
        None => None,
    }
}

pub open spec fn opt_seq(o: Option<String>) -> Option<Seq<char>> {
    match o {
        Some(s) => Some(s@),
        None => None,
    }
}

/// The first of two optional values that is there.
pub open spec fn either<T>(a: Option<T>, b: Option<T>) -> Option<T> {
    match a {
        Some(x) => Some(x),
        None => b,
    }
}

/// The value, or a fallback when there is none.
pub open spec fn or_else<T>(a: Option<T>, fallback: T) -> T {
    match a {
        Some(x) => x,
        None => fallback,
    }
}

/// `c` with `_` and ` ` read as `-`.
pub open spec fn dash_char(c: char) -> char {
    if c == '_' || c == ' ' {
        '-'
    } else {
        c
    }
}

/// A name as the app compares names: trimmed, lowercased, with `_` and ` `
/// read as `-`.
pub open spec fn normalized(s: Seq<char>) -> Seq<char> {
    word(s).map_values(|c: char| dash_char(c))
}

/// `str::eq_ignore_ascii_case`.
pub open spec fn same_ignoring_case(a: Seq<char>, b: Seq<char>) -> bool {
    lower(a) == lower(b)
}

/// Trims, lowercases, and reads `_` and ` ` as `-`.
pub fn normalize_name(s: &str) -> (r: String)
    ensures
        r@ == normalized(s@),
{
    let w = word_of(s);
    let v = chars_of(w.as_str());
    let mut r = String::new();
    let mut i: usize = 0;
    while i < v.len()
        invariant
            i <= v@.len(),
            v@ == word(s@),
            r@ == v@.subrange(0, i as int).map_values(|c: char| dash_char(c)),
        decreases v@.len() - i,
    {
        let c = v[i];
        let d = if c == '_' || c == ' ' {
            '-'
        } else {
            c
        };
        r.push(d);
        i = i + 1;
        assert(r@ =~= v@.subrange(0, i as int).map_values(|c: char| dash_char(c)));
    }
    assert(v@.subrange(0, v@.len() as int) =~= v@);
    r
}

/// `str::eq_ignore_ascii_case`.
pub fn same_ignoring_case_exec(a: &str, b: &str) -> (r: bool)
    ensures
        r == same_ignoring_case(a@, b@),
{
    let x = lowered(a);
    let y = lowered(b);
    same(x.as_str(), y.as_str())
}

/// A copy of an optional string.
pub fn copy_opt(o: &Option<String>) -> (r: Option<String>)
    ensures
        opt_seq(r) == opt_seq(*o),
{
    match o {
        Some(s) => Some(s.clone()),
        None => None,
    }
}


/// Where `needle` first occurs in `s`, searching from `i`.
pub open spec fn find_from(s: Seq<char>, needle: Seq<char>, i: nat) -> Option<nat>
    decreases s.len() - i,
{
    if occurs_at(s, needle, i as int) {
        Some(i)
    } else if i >= s.len() {
        None
    } else {
        find_from(s, needle, i + 1)
    }
}

/// What the search finds is an occurrence, at or after where it started.
pub proof fn lemma_find_from_occurs(s: Seq<char>, needle: Seq<char>, i: nat)
    ensures
        find_from(s, needle, i) matches Some(k) ==> i <= k && occurs_at(s, needle, k as int),
    decreases s.len() - i,
{
    if !occurs_at(s, needle, i as int) && i < s.len() {
        lemma_find_from_occurs(s, needle, i + 1);
    }
}

/// The text before the first `needle`, or all of it: the first piece of
/// `str::split`.
pub open spec fn before_sep(s: Seq<char>, needle: Seq<char>) -> Seq<char> {
    match find_from(s, needle, 0) {
        Some(i) => s.take(i as int),
        None => s,
    }
}

/// The text after the first `needle`, when there is one.
pub open spec fn after_sep(s: Seq<char>, needle: Seq<char>) -> Option<Seq<char>> {
    match find_from(s, needle, 0) {
        Some(i) => Some(s.skip((i + needle.len()) as int)),
        None => None,
    }
}

/// Where `pin` first occurs in `hay` at or after `from`.
pub fn find_exec(hay: &Vec<char>, pin: &Vec<char>, from: usize) -> (r: Option<usize>)
    requires
        from <= hay@.len(),
    ensures
        match r {
            Some(i) => find_from(hay@, pin@, from as nat) == Some(i as nat),
            None => find_from(hay@, pin@, from as nat) is None,
        },
{
    let mut at = from;
    while at < hay.len()
        invariant
            from <= at <= hay@.len(),
            find_from(hay@, pin@, from as nat) == find_from(hay@, pin@, at as nat),
        decreases hay@.len() - at,
    {
        if occurs_at_exec(hay, pin, at) {
            return Some(at);
        }
        at = at + 1;
    }
    if occurs_at_exec(hay, pin, at) {
        return Some(at);
    }
    None
}

/// The first piece of `s.split(needle)`.
pub fn before_sep_exec(s: &str, needle: &str) -> (r: String)
    ensures
        r@ == before_sep(s@, needle@),
{
    let hay = chars_of(s);
    let pin = chars_of(needle);
    proof {
        lemma_find_from_occurs(s@, needle@, 0);
    }
    match find_exec(&hay, &pin, 0) {
        Some(i) => {
            assert(hay@.subrange(0, i as int) =~= s@.take(i as int));
            string_of(&hay, 0, i)
        },
        None => owned(s),
    }
}

/// What follows the first `needle` in `s`, when it occurs.
pub fn after_sep_exec(s: &str, needle: &str) -> (r: Option<String>)
    ensures
        opt_seq(r) == after_sep(s@, needle@),
{
    let hay = chars_of(s);
    let pin = chars_of(needle);
    proof {
        lemma_find_from_occurs(s@, needle@, 0);
    }
    match find_exec(&hay, &pin, 0) {
        Some(i) => {
            assert(occurs_at(hay@, pin@, i as int));
            assert(i + pin@.len() <= hay@.len());
            assert(hay@.len() == hay.len());
            let from = i + pin.len();
            assert(hay@.subrange(from as int, hay@.len() as int) =~= s@.skip(from as int));
            Some(string_of(&hay, from, hay.len()))
        },
        None => None,
    }
}

/// The first `n` characters, or all when there are fewer.
pub open spec fn first_chars(s: Seq<char>, n: nat) -> Seq<char> {
    if s.len() <= n {
        s
    } else {
        s.take(n as int)
    }
}

pub fn first_chars_exec(s: &str, n: usize) -> (r: String)
    ensures
        r@ == first_chars(s@, n as nat),
{
    let v = chars_of(s);
    if v.len() <= n {
        owned(s)
    } else {
        assert(v@.subrange(0, n as int) =~= s@.take(n as int));
        string_of(&v, 0, n)
    }
}


/// `str::trim_start`.
pub fn trimmed_start(s: &str) -> (r: String)
    ensures
        r@ == trim_start(s@),
{
    let v = chars_of(s);
    let n = v.len();
    let mut i: usize = 0;
    while i < n && is_ws_exec(v[i])
        invariant
            n == v@.len(),
            i <= n,
            forall|k: int| 0 <= k < i ==> is_ws(#[trigger] v@[k]),
        decreases n - i,
    {
        i = i + 1;
    }
    proof {
        lemma_trim_start_prefix(v@, i as int);
        let t = v@.subrange(i as int, n as int);
        if t.len() > 0 {
            assert(t[0] == v@[i as int]);
        }
        assert(trim_start(t) == t);
    }
    string_of(&v, i, n)
}

/// `str::trim_end`.
pub fn trimmed_end(s: &str) -> (r: String)
    ensures
        r@ == trim_end(s@),
{
    let v = chars_of(s);
    let n = v.len();
    let mut j: usize = n;
    while j > 0 && is_ws_exec(v[j - 1])
        invariant
            n == v@.len(),
            j <= n,
            forall|k: int| j <= k < n ==> is_ws(#[trigger] v@[k]),
        decreases j,
    {
        j = j - 1;
    }
    proof {
        lemma_trim_end_suffix(v@, j as int);
        let u = v@.subrange(0, j as int);
        if u.len() > 0 {
            assert(u.last() == v@[j - 1]);
        }
        assert(trim_end(u) == u);
    }
    string_of(&v, 0, j)
}


/// The value of a run of decimal digits.
pub open spec fn digits_value(s: Seq<char>) -> int
    decreases s.len(),
{
    if s.len() == 0 {
        0
    } else {
        digits_value(s.drop_last()) * 10 + (s.last() as int - 48)
    }
}

pub open spec fn all_digits(s: Seq<char>) -> bool {
    forall|i: int| 0 <= i < s.len() ==> '0' <= #[trigger] s[i] && s[i] <= '9'
}

/// The whole number a text spells the way `i64::from_str` reads one: an
/// optional sign, then one or more digits and nothing else; its value, of
/// whatever size.
pub open spec fn whole_value(t: Seq<char>) -> Option<int> {
    let signed = t.len() > 0 && (t[0] == '-' || t[0] == '+');
    let body = if signed {
        t.drop_first()
    } else {
        t
    };
    if body.len() > 0 && all_digits(body) {
        Some(
            if t[0] == '-' {
                -digits_value(body)
            } else {
                digits_value(body)
            },
        )
    } else {
        None
    }
}

/// The text is a whole number that fits `i64`.
pub open spec fn whole_i64(t: Seq<char>) -> Option<i64> {
    match whole_value(t) {
        Some(n) => if i64::MIN <= n <= i64::MAX {
            Some(n as i64)
        } else {
            None
        },
        None => None,
    }
}

proof fn lemma_digits_value_grows(s: Seq<char>, k: int)
    requires
        all_digits(s),
        0 <= k <= s.len(),
    ensures
        0 <= digits_value(s.take(k)) <= digits_value(s),
    decreases s.len(),
{
    if s.len() > 0 {
        let d = s.drop_last();
        assert(all_digits(d)) by {
            assert forall|i: int| 0 <= i < d.len() implies '0' <= #[trigger] d[i] && d[i] <= '9' by {
                assert(d[i] == s[i]);
            }
        }
        assert(s.last() == s[s.len() - 1]);
        if k == s.len() {
            assert(s.take(k) =~= s);
            lemma_digits_value_grows(d, d.len() as int);
            assert(d.take(d.len() as int) =~= d);
        } else {
            lemma_digits_value_grows(d, k);
            assert(d.take(k) =~= s.take(k));
            lemma_digits_value_grows(d, d.len() as int);
            assert(d.take(d.len() as int) =~= d);
        }
    }
}

/// `text.parse::<i64>()`, read by hand: the number when the text spells one
/// that fits.
pub fn parse_whole(text: &str) -> (r: Option<i64>)
    ensures
        r == whole_i64(text@),
{
    let v = chars_of(text);
    let n = v.len();
    if n == 0 {
        return None;
    }
    let neg = v[0] == '-';
    let start: usize = if v[0] == '-' || v[0] == '+' {
        1
    } else {
        0
    };
    let ghost body = if start == 1 {
        text@.drop_first()
    } else {
        text@
    };
    assert(body =~= text@.skip(start as int));
    if start == n {
        return None;
    }
    let limit: u64 = 9223372036854775808u64;
    let mut acc: u64 = 0;
    let mut i: usize = start;
    while i < n
        invariant
            v@ == text@,
            n == v@.len(),
            start <= i <= n,
            start < n,
            body == text@.skip(start as int),
            body == (if text@.len() > 0 && (text@[0] == '-' || text@[0] == '+') {
                text@.drop_first()
            } else {
                text@
            }),
            neg == (text@[0] == '-'),
            all_digits(body.take(i - start)),
            acc == digits_value(body.take(i - start)),
            acc <= limit,
            limit == 9223372036854775808u64,
        decreases n - i,
    {
        let c = v[i];
        if !('0' <= c && c <= '9') {
            assert(body[i - start] == c);
            assert(!all_digits(body));
            return None;
        }
        let d: u64 = (c as u64) - 48;
        let ghost pre = body.take(i - start);
        let ghost next = body.take(i - start + 1);
        assert(next.drop_last() =~= pre);
        assert(next.last() == c);
        assert(all_digits(next)) by {
            assert forall|k: int| 0 <= k < next.len() implies '0' <= #[trigger] next[k] && next[k] <= '9' by {
                if k < pre.len() {
                    assert(next[k] == pre[k]);
                }
            }
        }
        if acc > (limit - d) / 10 {
            assert(acc * 10 + d > limit) by (nonlinear_arith)
                requires
                    acc > (limit - d) / 10,
                    d <= 9,
                    limit == 9223372036854775808u64,
            ;
            proof {
                assert(digits_value(next) == acc * 10 + d);
                if all_digits(body) {
                    lemma_digits_value_grows(body, i - start + 1);
                }
            }
            return None;
        }
        assert(acc * 10 + d <= limit) by (nonlinear_arith)
            requires
                acc <= (limit - d) / 10,
                d <= 9,
                limit == 9223372036854775808u64,
        ;
        acc = acc * 10 + d;
        i = i + 1;
    }
    assert(body.take(n - start) =~= body);
    if neg {
        if acc == limit {
            Some(-9223372036854775807i64 - 1)
        } else {
            Some(0i64 - (acc as i64))
        }
    } else if acc == limit {
        None
    } else {
        Some(acc as i64)
    }
}

/// What `format!("{:?}", text)` writes for a string.
pub uninterp spec fn debug_text(s: Seq<char>) -> Seq<char>;

/// `<str as Debug>::fmt` through `format!`: the text in double quotes with
/// quotes, backslashes and unprintable characters escaped. Its result is
/// named, not spelled out: the escapes follow std's tables of printable
/// characters.
#[verifier::external_body]
pub(crate) fn debug_quoted(text: &str) -> (r: String)
    ensures
        r@ == debug_text(text@),
{
    format!("{:?}", text)
}

} // verus!
