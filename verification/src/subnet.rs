//! IPv4 subnet arithmetic on dotted text.
//!
//! An address is read leniently: the text is cut at every dot, each piece that
//! is a decimal number up to 255 counts as an octet, and every other piece is
//! passed over. The text is an address when exactly four octets are left.

use vstd::prelude::*;
use vstd::slice::*;
use vstd::string::*;
use vstd::utf8::*;

verus! {

/// The byte is an ASCII decimal digit.
pub open spec fn is_digit(b: u8) -> bool {
    0x30 <= b <= 0x39
}

/// The number that a run of decimal digits spells.
pub open spec fn decimal_value(digits: Seq<u8>) -> nat
    decreases digits.len(),
{
    if digits.len() == 0 {
        0
    } else {
        decimal_value(digits.drop_last()) * 10 + (digits.last() - 0x30) as nat
    }
}

/// A piece without the plus sign that may lead it.
pub open spec fn unsigned_part(piece: Seq<u8>) -> Seq<u8> {
    if piece.len() > 0 && piece[0] == 0x2B {
        piece.skip(1)
    } else {
        piece
    }
}

/// The octet that a piece spells: at least one decimal digit, a plus sign
/// before them or none, and a value up to 255. Leading zeros are accepted.
pub open spec fn octet_of(piece: Seq<u8>) -> Option<u8> {
    let digits = unsigned_part(piece);
    if digits.len() > 0 && (forall|i: int| 0 <= i < digits.len() ==> is_digit(#[trigger] digits[i]))
        && decimal_value(digits) <= 255 {
        Some(decimal_value(digits) as u8)
    } else {
        None
    }
}

/// The place of the first dot at or after `from`, or the text's length where
/// there is none.
pub open spec fn next_dot(text: Seq<u8>, from: int) -> int
    decreases text.len() - from,
{
    if from >= text.len() || text[from] == 0x2E {
        from
    } else {
        next_dot(text, from + 1)
    }
}

/// The octets spelled by the pieces of `text` that start at or after `from`,
/// in order.
pub open spec fn octets_from(text: Seq<u8>, from: int) -> Seq<u8>
    decreases text.len() - from,
{
    if from < 0 || from > text.len() {
        Seq::<u8>::empty()
    } else {
        let end = next_dot(text, from);
        let here = match octet_of(text.subrange(from, end)) {
            Some(octet) => seq![octet],
            None => Seq::<u8>::empty(),
        };
        if from <= end < text.len() {
            here + octets_from(text, end + 1)
        } else {
            here
        }
    }
}

/// The address that a text spells, if it spells one: its four octets.
pub open spec fn quad_of(text: Seq<char>) -> Option<Seq<u8>> {
    let octets = octets_from(encode_utf8(text), 0);
    if octets.len() == 4 {
        Some(octets)
    } else {
        None
    }
}

/// The network part of an address under a mask.
pub open spec fn network_of(ip: Seq<u8>, mask: Seq<u8>) -> Seq<u8> {
    Seq::new(4, |i: int| ip[i] & mask[i])
}

/// The broadcast address of an address's network under a mask.
pub open spec fn broadcast_of(ip: Seq<u8>, mask: Seq<u8>) -> Seq<u8> {
    Seq::new(4, |i: int| ip[i] | !mask[i])
}

/// The character of a decimal digit.
pub open spec fn digit_char(d: u8) -> char {
    if d == 0 {
        '0'
    } else if d == 1 {
        '1'
    } else if d == 2 {
        '2'
    } else if d == 3 {
        '3'
    } else if d == 4 {
        '4'
    } else if d == 5 {
        '5'
    } else if d == 6 {
        '6'
    } else if d == 7 {
        '7'
    } else if d == 8 {
        '8'
    } else {
        '9'
    }
}

/// An octet in decimal, without leading zeros.
pub open spec fn decimal_text(v: u8) -> Seq<char> {
    if v < 10 {
        seq![digit_char(v)]
    } else if v < 100 {
        seq![digit_char(v / 10), digit_char(v % 10)]
    } else {
        seq![digit_char(v / 100), digit_char((v / 10) % 10), digit_char(v % 10)]
    }
}

/// Four octets in dotted decimal.
pub open spec fn dotted(octets: Seq<u8>) -> Seq<char> {
    decimal_text(octets[0]) + seq!['.'] + decimal_text(octets[1]) + seq!['.'] + decimal_text(
        octets[2],
    ) + seq!['.'] + decimal_text(octets[3])
}

/// The value of a run of digits does not shrink when digits follow it.
proof fn lemma_decimal_value_grows(digits: Seq<u8>, k: int)
    requires
        0 <= k <= digits.len(),
        forall|i: int| 0 <= i < digits.len() ==> is_digit(#[trigger] digits[i]),
    ensures
        decimal_value(digits.take(k)) <= decimal_value(digits),
    decreases digits.len() - k,
{
    if k == digits.len() {
        assert(digits.take(k) == digits);
    } else {
        let longer = digits.take(k + 1);
        assert(longer.drop_last() == digits.take(k));
        assert(is_digit(digits[k]));
        assert(decimal_value(longer) == decimal_value(digits.take(k)) * 10 + (digits[k] - 0x30));
        lemma_decimal_value_grows(digits, k + 1);
    }
}

/// Reads the octet that a piece spells.
fn parse_octet(piece: &[u8]) -> (r: Option<u8>)
    ensures
        r == octet_of(piece@),
{
    let start: usize = if piece.len() > 0 && piece[0] == 0x2B {
        1
    } else {
        0
    };
    let ghost digits = unsigned_part(piece@);
    assert(digits == piece@.skip(start as int));
    if start == piece.len() {
        return None;
    }
    let mut value: u16 = 0;
    let mut i: usize = start;
    while i < piece.len()
        invariant
            start <= i <= piece@.len(),
            digits == unsigned_part(piece@),
            digits == piece@.skip(start as int),
            forall|j: int| 0 <= j < i - start ==> is_digit(#[trigger] digits[j]),
            value == decimal_value(digits.take(i - start)),
            value <= 255,
        decreases piece@.len() - i,
    {
        let b = piece[i];
        assert(digits[i - start] == b);
        if b < 0x30 || b > 0x39 {
            assert(!is_digit(digits[i - start]));
            return None;
        }
        let ghost longer = digits.take(i - start + 1);
        assert(longer.drop_last() == digits.take(i - start));
        assert(longer.last() == b);
        value = value * 10 + (b - 0x30) as u16;
        assert(value == decimal_value(longer));
        if value > 255 {
            proof {
                if forall|j: int| 0 <= j < digits.len() ==> is_digit(#[trigger] digits[j]) {
                    lemma_decimal_value_grows(digits, i - start + 1);
                }
            }
            return None;
        }
        i += 1;
    }
    assert(digits.take(i - start) == digits);
    Some(value as u8)
}

/// Finds the first dot at or after `from`.
fn find_dot(text: &[u8], from: usize) -> (end: usize)
    requires
        from <= text@.len(),
    ensures
        end == next_dot(text@, from as int),
        from <= end <= text@.len(),
{
    let mut end: usize = from;
    while end < text.len() && text[end] != 0x2E
        invariant
            from <= end <= text@.len(),
            next_dot(text@, from as int) == next_dot(text@, end as int),
        decreases text@.len() - end,
    {
        end += 1;
    }
    end
}

/// Reads the octets that a dotted text spells.
fn parse_octets(text: &[u8]) -> (octets: Vec<u8>)
    ensures
        octets@ == octets_from(text@, 0),
{
    let mut octets: Vec<u8> = Vec::new();
    let mut from: usize = 0;
    loop
        invariant
            from <= text@.len(),
            octets@ + octets_from(text@, from as int) == octets_from(text@, 0),
        decreases text@.len() - from,
    {
        let end = find_dot(text, from);
        let ghost before = octets@;
        let ghost here = match octet_of(text@.subrange(from as int, end as int)) {
            Some(octet) => seq![octet],
            None => Seq::<u8>::empty(),
        };
        match parse_octet(slice_subrange(text, from, end)) {
            Some(octet) => {
                octets.push(octet);
            },
            None => {},
        }
        assert(octets@ == before + here);
        if end == text.len() {
            assert(octets_from(text@, from as int) == here);
            return octets;
        }
        assert(octets_from(text@, from as int) == here + octets_from(text@, end + 1));
        assert(octets@ + octets_from(text@, end + 1) == before + (here + octets_from(
            text@,
            end + 1,
        )));
        from = end + 1;
    }
}

/// The text of one decimal digit.
fn digit_str(d: u8) -> (s: &'static str)
    requires
        d < 10,
    ensures
        s@ == seq![digit_char(d)],
{
    proof {
        reveal_strlit("0");
        reveal_strlit("1");
        reveal_strlit("2");
        reveal_strlit("3");
        reveal_strlit("4");
        reveal_strlit("5");
        reveal_strlit("6");
        reveal_strlit("7");
        reveal_strlit("8");
        reveal_strlit("9");
    }
    let s = match d {
        0 => "0",
        1 => "1",
        2 => "2",
        3 => "3",
        4 => "4",
        5 => "5",
        6 => "6",
        7 => "7",
        8 => "8",
        _ => "9",
    };
    assert(s@ =~= seq![digit_char(d)]);
    s
}

/// Appends an octet in decimal.
fn push_decimal(out: &mut String, v: u8)
    ensures
        final(out)@ == old(out)@ + decimal_text(v),
{
    if v >= 100 {
        out.append(digit_str(v / 100));
    }
    if v >= 10 {
        out.append(digit_str((v / 10) % 10));
    }
    out.append(digit_str(v % 10));
    assert(out@ =~= old(out)@ + decimal_text(v));
}

/// Writes four octets in dotted decimal.
pub(crate) fn render_quad(a: u8, b: u8, c: u8, d: u8) -> (text: String)
    ensures
        text@ == dotted(seq![a, b, c, d]),
{
    proof {
        reveal_strlit(".");
    }
    let mut text = String::new();
    push_decimal(&mut text, a);
    text.append(".");
    push_decimal(&mut text, b);
    text.append(".");
    push_decimal(&mut text, c);
    text.append(".");
    push_decimal(&mut text, d);
    assert("."@ =~= seq!['.']);
    assert(text@ =~= dotted(seq![a, b, c, d]));
    text
}

/// Reads the address that a text spells.
fn parse_quad(text: &str) -> (r: Option<Vec<u8>>)
    ensures
        match r {
            Some(octets) => quad_of(text@) == Some(octets@),
            None => quad_of(text@) is None,
        },
{
    let octets = parse_octets(text.as_bytes());
    if octets.len() == 4 {
        Some(octets)
    } else {
        None
    }
}

/// The network prefix of `ip` under `netmask`, in dotted decimal; `None`
/// unless both texts spell an address.
pub fn calculate_network_prefix(ip: &str, netmask: &str) -> (r: Option<String>)
    ensures
        r is Some <==> quad_of(ip@) is Some && quad_of(netmask@) is Some,
        r matches Some(prefix) ==> prefix@ == dotted(
            network_of(quad_of(ip@)->Some_0, quad_of(netmask@)->Some_0),
        ),
{
    let addr = match parse_quad(ip) {
        Some(octets) => octets,
        None => { return None; },
    };
    let mask = match parse_quad(netmask) {
        Some(octets) => octets,
        None => { return None; },
    };
    let text = render_quad(addr[0] & mask[0], addr[1] & mask[1], addr[2] & mask[2], addr[3] & mask[3]);
    assert(seq![addr[0] & mask[0], addr[1] & mask[1], addr[2] & mask[2], addr[3] & mask[3]]
        =~= network_of(addr@, mask@));
    Some(text)
}

/// The broadcast address of the network of `ip` under `netmask`, in dotted
/// decimal; `None` unless both texts spell an address.
pub fn calculate_broadcast_address(ip: &str, netmask: &str) -> (r: Option<String>)
    ensures
        r is Some <==> quad_of(ip@) is Some && quad_of(netmask@) is Some,
        r matches Some(address) ==> address@ == dotted(
            broadcast_of(quad_of(ip@)->Some_0, quad_of(netmask@)->Some_0),
        ),
{
    let addr = match parse_quad(ip) {
        Some(octets) => octets,
        None => { return None; },
    };
    let mask = match parse_quad(netmask) {
        Some(octets) => octets,
        None => { return None; },
    };
    let text = render_quad(
        addr[0] | !mask[0],
        addr[1] | !mask[1],
        addr[2] | !mask[2],
        addr[3] | !mask[3],
    );
    assert(seq![addr[0] | !mask[0], addr[1] | !mask[1], addr[2] | !mask[2], addr[3] | !mask[3]]
        =~= broadcast_of(addr@, mask@));
    Some(text)
}

/// Two addresses lie in one subnet under a mask when all three texts spell an
/// address and the two have the same network part.
pub open spec fn same_subnet(ip1: Seq<char>, ip2: Seq<char>, mask: Seq<char>) -> bool {
    &&& quad_of(ip1) is Some
    &&& quad_of(ip2) is Some
    &&& quad_of(mask) is Some
    &&& network_of(quad_of(ip1)->Some_0, quad_of(mask)->Some_0) == network_of(
        quad_of(ip2)->Some_0,
        quad_of(mask)->Some_0,
    )
}

/// Tells whether two addresses lie in one subnet under a mask.
pub fn are_on_same_subnet(ip1: String, ip2: String, subnet_mask: String) -> (same: bool)
    ensures
        same == same_subnet(ip1@, ip2@, subnet_mask@),
{
    let first = match parse_quad(ip1.as_str()) {
        Some(octets) => octets,
        None => { return false; },
    };
    let second = match parse_quad(ip2.as_str()) {
        Some(octets) => octets,
        None => { return false; },
    };
    let mask = match parse_quad(subnet_mask.as_str()) {
        Some(octets) => octets,
        None => { return false; },
    };
    let ghost left = network_of(first@, mask@);
    let ghost right = network_of(second@, mask@);
    let mut i: usize = 0;
    while i < 4
        invariant
            i <= 4,
            quad_of(ip1@) == Some(first@),
            quad_of(ip2@) == Some(second@),
            quad_of(subnet_mask@) == Some(mask@),
            left == network_of(first@, mask@),
            right == network_of(second@, mask@),
            forall|j: int| 0 <= j < i ==> left[j] == right[j],
        decreases 4 - i,
    {
        if (first[i] & mask[i]) != (second[i] & mask[i]) {
            assert(left[i as int] != right[i as int]);
            return false;
        }
        i += 1;
    }
    assert(left =~= right);
    true
}

/// Lying in one subnet is mutual.
pub proof fn lemma_same_subnet_symmetric(ip1: Seq<char>, ip2: Seq<char>, mask: Seq<char>)
    ensures
        same_subnet(ip1, ip2, mask) == same_subnet(ip2, ip1, mask),
{
}

/// An address lies in its own subnet, under any mask.
pub proof fn lemma_same_subnet_reflexive(ip: Seq<char>, mask: Seq<char>)
    requires
        quad_of(ip) is Some,
        quad_of(mask) is Some,
    ensures
        same_subnet(ip, ip, mask),
{
}

/// The broadcast address of a network lies in that network, and so does the
/// network's own prefix.
pub proof fn lemma_broadcast_in_network(ip: Seq<u8>, mask: Seq<u8>)
    requires
        ip.len() == 4,
        mask.len() == 4,
    ensures
        network_of(broadcast_of(ip, mask), mask) == network_of(ip, mask),
        network_of(network_of(ip, mask), mask) == network_of(ip, mask),
{
    assert forall|i: int| 0 <= i < 4 implies (#[trigger] broadcast_of(ip, mask)[i]) & mask[i]
        == ip[i] & mask[i] by {
        let a = ip[i];
        let m = mask[i];
        assert((a | !m) & m == a & m) by (bit_vector);
    }
    assert forall|i: int| 0 <= i < 4 implies (#[trigger] network_of(ip, mask)[i]) & mask[i]
        == ip[i] & mask[i] by {
        let a = ip[i];
        let m = mask[i];
        assert((a & m) & m == a & m) by (bit_vector);
    }
    assert(network_of(broadcast_of(ip, mask), mask) =~= network_of(ip, mask));
    assert(network_of(network_of(ip, mask), mask) =~= network_of(ip, mask));
}

/// The bytes of an octet in decimal.
pub open spec fn decimal_bytes(v: u8) -> Seq<u8> {
    if v < 10 {
        seq![(0x30 + v) as u8]
    } else if v < 100 {
        seq![(0x30 + v / 10) as u8, (0x30 + v % 10) as u8]
    } else {
        seq![(0x30 + v / 100) as u8, (0x30 + (v / 10) % 10) as u8, (0x30 + v % 10) as u8]
    }
}

/// The bytes of a text that holds ASCII alone.
pub open spec fn ascii_bytes(text: Seq<char>) -> Seq<u8> {
    Seq::new(text.len(), |i: int| text[i] as u8)
}

proof fn lemma_digit_char_byte(d: u8)
    requires
        d < 10,
    ensures
        digit_char(d) as u8 == 0x30 + d,
        '\0' <= digit_char(d) <= '\u{7f}',
{
}

proof fn lemma_decimal_text_bytes(v: u8)
    ensures
        is_ascii_chars(decimal_text(v)),
        ascii_bytes(decimal_text(v)) == decimal_bytes(v),
{
    lemma_digit_char_byte(v % 10);
    lemma_digit_char_byte((v / 10) % 10);
    lemma_digit_char_byte(v / 100);
    assert(ascii_bytes(decimal_text(v)) =~= decimal_bytes(v));
}

proof fn lemma_decimal_bytes_parse(v: u8)
    ensures
        octet_of(decimal_bytes(v)) == Some(v),
        1 <= decimal_bytes(v).len() <= 3,
        forall|i: int| 0 <= i < decimal_bytes(v).len() ==> is_digit(#[trigger] decimal_bytes(v)[i]),
{
    let d = decimal_bytes(v);
    assert(unsigned_part(d) == d);
    reveal_with_fuel(decimal_value, 4);
    if v < 10 {
        assert(d.drop_last() =~= Seq::<u8>::empty());
        assert(decimal_value(d) == v);
    } else if v < 100 {
        let one = d.drop_last();
        assert(one =~= seq![(0x30 + v / 10) as u8]);
        assert(one.drop_last() =~= Seq::<u8>::empty());
        assert(decimal_value(one) == v / 10);
        assert(decimal_value(d) == v);
    } else {
        let two = d.drop_last();
        assert(two =~= seq![(0x30 + v / 100) as u8, (0x30 + (v / 10) % 10) as u8]);
        let one = two.drop_last();
        assert(one =~= seq![(0x30 + v / 100) as u8]);
        assert(one.drop_last() =~= Seq::<u8>::empty());
        assert(decimal_value(one) == v / 100);
        assert(decimal_value(two) == (v / 100) * 10 + (v / 10) % 10);
        assert(decimal_value(d) == v);
    }
}

proof fn lemma_next_dot_skips(text: Seq<u8>, from: int, n: int)
    requires
        0 <= from,
        0 <= n,
        from + n <= text.len(),
        forall|i: int| from <= i < from + n ==> #[trigger] text[i] != 0x2E,
        from + n == text.len() || text[from + n] == 0x2E,
    ensures
        next_dot(text, from) == from + n,
    decreases n,
{
    if n > 0 {
        assert(text[from] != 0x2E);
        lemma_next_dot_skips(text, from + 1, n - 1);
    }
}

/// One step of reading: where the piece at `from` is the decimal of `v`, and
/// a dot or the end follows it, the piece gives `v`.
proof fn lemma_piece_read(text: Seq<u8>, from: int, v: u8)
    requires
        0 <= from,
        from + decimal_bytes(v).len() <= text.len(),
        text.subrange(from, from + decimal_bytes(v).len()) == decimal_bytes(v),
        from + decimal_bytes(v).len() == text.len() || text[from + decimal_bytes(v).len()] == 0x2E,
    ensures
        next_dot(text, from) == from + decimal_bytes(v).len(),
        octet_of(text.subrange(from, next_dot(text, from))) == Some(v),
{
    let n = decimal_bytes(v).len() as int;
    lemma_decimal_bytes_parse(v);
    assert forall|i: int| from <= i < from + n implies #[trigger] text[i] != 0x2E by {
        assert(text[i] == decimal_bytes(v)[i - from]);
        assert(is_digit(decimal_bytes(v)[i - from]));
    }
    lemma_next_dot_skips(text, from, n);
}

/// The piece that stands between `prefix` and `suffix` is read as `v` where
/// it is the decimal of `v` and a dot or nothing follows it.
proof fn lemma_piece_between(prefix: Seq<u8>, v: u8, suffix: Seq<u8>)
    requires
        suffix.len() == 0 || suffix[0] == 0x2E,
    ensures
        ({
            let text = prefix + decimal_bytes(v) + suffix;
            let from = prefix.len() as int;
            let end = from + decimal_bytes(v).len();
            &&& next_dot(text, from) == end
            &&& octet_of(text.subrange(from, end)) == Some(v)
            &&& end + suffix.len() == text.len()
        }),
{
    let text = prefix + decimal_bytes(v) + suffix;
    let from = prefix.len() as int;
    let end = from + decimal_bytes(v).len();
    assert(text.subrange(from, end) =~= decimal_bytes(v));
    if suffix.len() > 0 {
        assert(text[end] == suffix[0]);
    }
    lemma_piece_read(text, from, v);
}

/// The bytes of four octets in dotted decimal.
pub open spec fn dotted_bytes(a: u8, b: u8, c: u8, d: u8) -> Seq<u8> {
    decimal_bytes(a) + seq![0x2Eu8] + decimal_bytes(b) + seq![0x2Eu8] + decimal_bytes(c)
        + seq![0x2Eu8] + decimal_bytes(d)
}

proof fn lemma_read_last(text: Seq<u8>, prefix: Seq<u8>, v: u8)
    requires
        text == prefix + decimal_bytes(v),
    ensures
        octets_from(text, prefix.len() as int) == seq![v],
{
    lemma_piece_between(prefix, v, Seq::<u8>::empty());
    assert(text =~= prefix + decimal_bytes(v) + Seq::<u8>::empty());
}

proof fn lemma_read_inner(text: Seq<u8>, prefix: Seq<u8>, v: u8, rest: Seq<u8>)
    requires
        text == prefix + decimal_bytes(v) + seq![0x2Eu8] + rest,
    ensures
        octets_from(text, prefix.len() as int) == seq![v] + octets_from(
            text,
            prefix.len() as int + decimal_bytes(v).len() + 1,
        ),
{
    let suffix = seq![0x2Eu8] + rest;
    lemma_piece_between(prefix, v, suffix);
    assert(text =~= prefix + decimal_bytes(v) + suffix);
}

proof fn lemma_read_dotted_bytes(a: u8, b: u8, c: u8, d: u8)
    ensures
        octets_from(dotted_bytes(a, b, c, d), 0) == seq![a, b, c, d],
{
    let text = dotted_bytes(a, b, c, d);
    let dot = seq![0x2Eu8];
    let pa = Seq::<u8>::empty();
    let pb = decimal_bytes(a) + dot;
    let pc = pb + decimal_bytes(b) + dot;
    let pd = pc + decimal_bytes(c) + dot;
    assert(text =~= pa + decimal_bytes(a) + dot + (decimal_bytes(b) + dot + decimal_bytes(c) + dot
        + decimal_bytes(d)));
    lemma_read_inner(
        text,
        pa,
        a,
        decimal_bytes(b) + dot + decimal_bytes(c) + dot + decimal_bytes(d),
    );
    assert(text =~= pb + decimal_bytes(b) + dot + (decimal_bytes(c) + dot + decimal_bytes(d)));
    lemma_read_inner(text, pb, b, decimal_bytes(c) + dot + decimal_bytes(d));
    assert(text =~= pc + decimal_bytes(c) + dot + decimal_bytes(d));
    lemma_read_inner(text, pc, c, decimal_bytes(d));
    assert(text =~= pd + decimal_bytes(d));
    lemma_read_last(text, pd, d);
    assert(seq![a] + (seq![b] + (seq![c] + seq![d])) =~= seq![a, b, c, d]);
}

proof fn lemma_ascii_bytes_concat(a: Seq<char>, b: Seq<char>)
    ensures
        ascii_bytes(a + b) == ascii_bytes(a) + ascii_bytes(b),
{
    assert(ascii_bytes(a + b) =~= ascii_bytes(a) + ascii_bytes(b));
}

proof fn lemma_dotted_is_ascii(octets: Seq<u8>)
    requires
        octets.len() == 4,
    ensures
        is_ascii_chars(dotted(octets)),
        ascii_bytes(dotted(octets)) == dotted_bytes(octets[0], octets[1], octets[2], octets[3]),
{
    let dot = seq!['.'];
    let t0 = decimal_text(octets[0]);
    let t1 = decimal_text(octets[1]);
    let t2 = decimal_text(octets[2]);
    let t3 = decimal_text(octets[3]);
    lemma_decimal_text_bytes(octets[0]);
    lemma_decimal_text_bytes(octets[1]);
    lemma_decimal_text_bytes(octets[2]);
    lemma_decimal_text_bytes(octets[3]);
    assert(ascii_bytes(dot) =~= seq![0x2Eu8]);
    lemma_ascii_bytes_concat(t0, dot);
    lemma_ascii_bytes_concat(t0 + dot, t1);
    lemma_ascii_bytes_concat(t0 + dot + t1, dot);
    lemma_ascii_bytes_concat(t0 + dot + t1 + dot, t2);
    lemma_ascii_bytes_concat(t0 + dot + t1 + dot + t2, dot);
    lemma_ascii_bytes_concat(t0 + dot + t1 + dot + t2 + dot, t3);
    assert(is_ascii_chars(dot));
    assert(is_ascii_chars(dotted(octets))) by {
        let text = dotted(octets);
        assert forall|i: int| 0 <= i < text.len() implies '\0' <= #[trigger] text[i]
            <= '\u{7f}' by {
            let n0 = t0.len() as int;
            let n1 = n0 + 1 + t1.len();
            let n2 = n1 + 1 + t2.len();
            if i < n0 {
                assert(text[i] == t0[i]);
            } else if i == n0 {
            } else if i < n1 {
                assert(text[i] == t1[i - n0 - 1]);
            } else if i == n1 {
            } else if i < n2 {
                assert(text[i] == t2[i - n1 - 1]);
            } else if i == n2 {
            } else {
                assert(text[i] == t3[i - n2 - 1]);
            }
        }
    }
}

/// Writing an address and reading it back gives the address: dotted decimal
/// is understood by the reader that this module uses.
pub proof fn lemma_quad_of_dotted(octets: Seq<u8>)
    requires
        octets.len() == 4,
    ensures
        quad_of(dotted(octets)) == Some(octets),
{
    let text = dotted(octets);
    lemma_dotted_is_ascii(octets);
    is_ascii_chars_encode_utf8(text);
    assert(encode_utf8(text) =~= ascii_bytes(text));
    lemma_read_dotted_bytes(octets[0], octets[1], octets[2], octets[3]);
    assert(seq![octets[0], octets[1], octets[2], octets[3]] =~= octets);
}

} // verus!
