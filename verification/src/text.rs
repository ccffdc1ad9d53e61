//! Text handling for offer strings and error messages: Unicode whitespace trimming, the
//! `offer1` prefix test, and decimal / lowercase-hex rendering of numbers and hashes.
use vstd::prelude::*;
use vstd::string::*;

verus! {

/// Unicode `White_Space` (the set `char::is_whitespace` and `str::trim` use).
pub open spec fn is_whitespace(c: char) -> bool {
    let v = c as u32;
    ||| 0x09 <= v <= 0x0D
    ||| v == 0x20
    ||| v == 0x85
    ||| v == 0xA0
    ||| v == 0x1680
    ||| 0x2000 <= v <= 0x200A
    ||| v == 0x2028
    ||| v == 0x2029
    ||| v == 0x202F
    ||| v == 0x205F
    ||| v == 0x3000
}

/// `s` without its leading whitespace.
pub open spec fn trim_start(s: Seq<char>) -> Seq<char>
    decreases s.len(),
{
    if s.len() > 0 && is_whitespace(s[0]) {
        trim_start(s.drop_first())
    } else {
        s
    }
}

/// `s` without its trailing whitespace.
pub open spec fn trim_end(s: Seq<char>) -> Seq<char>
    decreases s.len(),
{
    if s.len() > 0 && is_whitespace(s.last()) {
        trim_end(s.drop_last())
    } else {
        s
    }
}

/// `s` without leading and trailing whitespace.
pub open spec fn trimmed(s: Seq<char>) -> Seq<char> {
    trim_end(trim_start(s))
}

proof fn lemma_trim_start_head(s: Seq<char>)
    ensures
        trim_start(s).len() > 0 ==> !is_whitespace(trim_start(s)[0]),
    decreases s.len(),
{
    if s.len() > 0 && is_whitespace(s[0]) {
        lemma_trim_start_head(s.drop_first());
    }
}

proof fn lemma_trim_end_prefix(s: Seq<char>)
    ensures
        trim_end(s).len() <= s.len(),
        trim_end(s) == s.take(trim_end(s).len() as int),
        trim_end(s).len() > 0 ==> !is_whitespace(trim_end(s).last()),
    decreases s.len(),
{
    if s.len() > 0 && is_whitespace(s.last()) {
        lemma_trim_end_prefix(s.drop_last());
        let t = trim_end(s.drop_last());
        assert(s.drop_last().take(t.len() as int) =~= s.take(t.len() as int));
    } else {
        assert(s.take(s.len() as int) =~= s);
    }
}

/// Trimming is idempotent: trimmed text has no surrounding whitespace left, so the text a decode
/// hands to the codec is the same whether or not the caller trimmed it first.
pub proof fn lemma_trimmed_idempotent(s: Seq<char>)
    ensures
        trimmed(trimmed(s)) == trimmed(s),
{
    let u = trim_start(s);
    let t = trim_end(u);
    lemma_trim_start_head(s);
    lemma_trim_end_prefix(u);
    if t.len() > 0 {
        assert(t[0] == u[0]);
        assert(trim_start(t) == t);
        assert(trim_end(t) == t);
    } else {
        assert(trim_start(t) == t);
        assert(trim_end(t) == t);
    }
}

pub fn char_is_whitespace(c: char) -> (r: bool)
    ensures
        r == is_whitespace(c),
{
    let v = c as u32;
    (0x09 <= v && v <= 0x0D) || v == 0x20 || v == 0x85 || v == 0xA0 || v == 0x1680 || (0x2000
        <= v && v <= 0x200A) || v == 0x2028 || v == 0x2029 || v == 0x202F || v == 0x205F || v
        == 0x3000
}

/// Removes leading and trailing Unicode whitespace, as `str::trim` does.
pub fn trim(s: &str) -> (r: &str)
    ensures
        r@ == trimmed(s@),
{
    let n = s.unicode_len();
    let mut i: usize = 0;
    assert(s@.subrange(0, n as int) =~= s@);
    while i < n && char_is_whitespace(s.get_char(i))
        invariant
            n == s@.len(),
            i <= n,
            trim_start(s@) == trim_start(s@.subrange(i as int, n as int)),
        decreases n - i,
    {
        assert(s@.subrange(i as int, n as int).drop_first() =~= s@.subrange(i + 1, n as int));
        i = i + 1;
    }
    assert(trim_start(s@) == s@.subrange(i as int, n as int));
    let mut j: usize = n;
    while j > i && char_is_whitespace(s.get_char(j - 1))
        invariant
            n == s@.len(),
            i <= j <= n,
            trimmed(s@) == trim_end(s@.subrange(i as int, j as int)),
        decreases j,
    {
        assert(s@.subrange(i as int, j as int).drop_last() =~= s@.subrange(i as int, j - 1));
        j = j - 1;
    }
    s.substring_char(i, j)
}

/// The text every encoded offer begins with.
pub open spec fn offer_prefix() -> Seq<char> {
    seq!['o', 'f', 'f', 'e', 'r', '1']
}

/// Whether `s` begins with `offer1`.
pub open spec fn has_offer_prefix(s: Seq<char>) -> bool {
    s.len() >= 6 && s.subrange(0, 6) == offer_prefix()
}

pub fn starts_with_offer_prefix(s: &str) -> (r: bool)
    ensures
        r == has_offer_prefix(s@),
{
    let n = s.unicode_len();
    if n < 6 {
        return false;
    }
    let r = s.get_char(0) == 'o' && s.get_char(1) == 'f' && s.get_char(2) == 'f' && s.get_char(3)
        == 'e' && s.get_char(4) == 'r' && s.get_char(5) == '1';
    assert(r == (s@.subrange(0, 6) =~= offer_prefix()));
    r
}

/// The decimal digit character for `d < 10`.
pub open spec fn digit_char(d: nat) -> char {
    if d == 0 { '0' }
    else if d == 1 { '1' }
    else if d == 2 { '2' }
    else if d == 3 { '3' }
    else if d == 4 { '4' }
    else if d == 5 { '5' }
    else if d == 6 { '6' }
    else if d == 7 { '7' }
    else if d == 8 { '8' }
    else { '9' }
}

/// The decimal rendering of `n`, as `Display` writes an unsigned integer.
pub open spec fn decimal(n: nat) -> Seq<char>
    decreases n,
{
    if n < 10 {
        seq![digit_char(n)]
    } else {
        decimal(n / 10).push(digit_char(n % 10))
    }
}

/// The lowercase hex digit character for `d < 16`.
pub open spec fn nibble_char(d: nat) -> char {
    if d < 10 { digit_char(d) }
    else if d == 10 { 'a' }
    else if d == 11 { 'b' }
    else if d == 12 { 'c' }
    else if d == 13 { 'd' }
    else if d == 14 { 'e' }
    else { 'f' }
}

/// The lowercase hex rendering of `bytes`, two characters per byte, high nibble first.
pub open spec fn hex(bytes: Seq<u8>) -> Seq<char>
    decreases bytes.len(),
{
    if bytes.len() == 0 {
        seq![]
    } else {
        hex(bytes.drop_last()) + seq![
            nibble_char((bytes.last() / 16) as nat),
            nibble_char((bytes.last() % 16) as nat),
        ]
    }
}

fn push_nibble(s: &mut String, d: u8)
    requires
        d < 16,
    ensures
        final(s)@ == old(s)@.push(nibble_char(d as nat)),
{
    let t = if d == 0 { "0" }
    else if d == 1 { "1" }
    else if d == 2 { "2" }
    else if d == 3 { "3" }
    else if d == 4 { "4" }
    else if d == 5 { "5" }
    else if d == 6 { "6" }
    else if d == 7 { "7" }
    else if d == 8 { "8" }
    else if d == 9 { "9" }
    else if d == 10 { "a" }
    else if d == 11 { "b" }
    else if d == 12 { "c" }
    else if d == 13 { "d" }
    else if d == 14 { "e" }
    else { "f" };
    proof {
        reveal_strlit("0");
        reveal_strlit("1");
        reveal_strlit("2");
        reveal_strlit("3");
        reveal_strlit("4");
        reveal_strlit("5");
        reveal_strlit("6");
        reveal_strlit("7");
        reveal_strlit("8");
        reveal_strlit("9");
        reveal_strlit("a");
        reveal_strlit("b");
        reveal_strlit("c");
        reveal_strlit("d");
        reveal_strlit("e");
        reveal_strlit("f");
    }
    s.append(t);
    assert(t@ =~= seq![nibble_char(d as nat)]);
}

/// Appends the decimal rendering of `n` to `s`.
pub fn push_decimal(s: &mut String, n: u128)
    ensures
        final(s)@ == old(s)@ + decimal(n as nat),
    decreases n,
{
    if n >= 10 {
        push_decimal(s, n / 10);
    }
    push_nibble(s, (n % 10) as u8);
    assert(nibble_char((n % 10) as nat) == digit_char((n % 10) as nat));
    assert(n < 10 ==> (n % 10) as nat == n as nat);
    assert(final(s)@ =~= old(s)@ + decimal(n as nat));
}

/// Appends the lowercase hex rendering of `bytes` to `s`.
pub fn push_hex(s: &mut String, bytes: &[u8; 32])
    ensures
        final(s)@ == old(s)@ + hex(bytes@),
{
    let ghost start = s@;
    let mut i: usize = 0;
    assert(bytes@.subrange(0, 0) =~= Seq::<u8>::empty());
    while i < 32
        invariant
            i <= 32,
            bytes@.len() == 32,
            s@ == start + hex(bytes@.subrange(0, i as int)),
        decreases 32 - i,
    {
        let b = bytes[i];
        push_nibble(s, b / 16);
        push_nibble(s, b % 16);
        assert(bytes@.subrange(0, i + 1).drop_last() =~= bytes@.subrange(0, i as int));
        assert(s@ =~= start + hex(bytes@.subrange(0, i + 1)));
        i = i + 1;
    }
    assert(bytes@.subrange(0, 32) =~= bytes@);
}


/// The shortfall message: `insufficient XCH to <verb>: need <need>, have <have>`, or with
/// `CAT <asset id in hex>` in place of `XCH` for a CAT.
pub open spec fn shortfall_text(asset: Option<Seq<u8>>, verb: Seq<char>, need: nat, have: nat) -> Seq<
    char,
> {
    let what = match asset {
        None => "XCH"@,
        Some(id) => "CAT "@ + hex(id),
    };
    "insufficient "@ + what + " to "@ + verb + ": need "@ + decimal(need) + ", have "@ + decimal(
        have,
    )
}

/// Builds the shortfall message for `asset` (`None` for XCH).
pub fn shortfall_message(asset: Option<&[u8; 32]>, verb: &str, need: u128, have: u128) -> (m:
    String)
    ensures
        m@ == shortfall_text(
            match asset {
                None => None,
                Some(id) => Some(id@),
            },
            verb@,
            need as nat,
            have as nat,
        ),
{
    let mut m = String::from_str("insufficient ");
    match asset {
        None => m.append("XCH"),
        Some(id) => {
            m.append("CAT ");
            push_hex(&mut m, id);
        },
    }
    m.append(" to ");
    m.append(verb);
    m.append(": need ");
    push_decimal(&mut m, need);
    m.append(", have ");
    push_decimal(&mut m, have);
    proof {
        let what = match asset {
            None => "XCH"@,
            Some(id) => "CAT "@ + hex(id@),
        };
        assert(m@ =~= "insufficient "@ + what + " to "@ + verb@ + ": need "@ + decimal(need as nat)
            + ", have "@ + decimal(have as nat));
    }
    m
}

/// Concatenates a literal prefix and a text.
pub fn prefixed(prefix: &str, text: String) -> (m: String)
    ensures
        m@ == prefix@ + text@,
{
    let mut m = String::from_str(prefix);
    m.append(text.as_str());
    m
}

/// Whether two hashes are equal.
pub fn bytes32_eq(a: &[u8; 32], b: &[u8; 32]) -> (r: bool)
    ensures
        r == (a@ == b@),
{
    let mut i: usize = 0;
    while i < 32
        invariant
            i <= 32,
            a@.len() == 32,
            b@.len() == 32,
            forall|k: int| 0 <= k < i ==> a@[k] == b@[k],
        decreases 32 - i,
    {
        if a[i] != b[i] {
            return false;
        }
        i = i + 1;
    }
    assert(a@ =~= b@);
    true
}

/// Whether every byte of the hash is zero.
pub fn bytes32_is_zero(a: &[u8; 32]) -> (r: bool)
    ensures
        r == (a@ == Seq::new(32, |_i: int| 0u8)),
{
    let mut i: usize = 0;
    while i < 32
        invariant
            i <= 32,
            a@.len() == 32,
            forall|k: int| 0 <= k < i ==> a@[k] == 0u8,
        decreases 32 - i,
    {
        if a[i] != 0 {
            assert(a@[i as int] != Seq::new(32, |_i: int| 0u8)[i as int]);
            return false;
        }
        i = i + 1;
    }
    assert(a@ =~= Seq::new(32, |_i: int| 0u8));
    true
}

} // verus!
