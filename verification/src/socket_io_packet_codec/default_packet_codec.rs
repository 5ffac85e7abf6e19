//! The default packet codec: wire grammar specification, encoder and
//! decoder, and the proof that decoding inverts encoding.

use vstd::prelude::*;
use vstd::string::*;

use crate::json_text::{json_ok, JsonText};
use crate::socket_io_packet_codec::number_util::convert_char_to_number;
use crate::socket_io_packet_codec::packet_type::{
    type_code, type_digit_char, type_of_code, SocketIoPacketType,
};
use crate::socket_io_packet_codec::socket_io_packet::{packet_wf, PacketV, SocketIoPacket};
use crate::socket_io_packet_codec::{CodecErrorV, PacketCodecError};

verus! {

/// Whether `c` is a decimal digit.
pub open spec fn is_digit_char(c: char) -> bool {
    crate::spec_char_to_number(c) is Some
}

/// The numeric value of a digit character (0 for non-digits).
pub open spec fn digit_val_of(c: char) -> int {
    match crate::spec_char_to_number(c) {
        Some(d) => d as int,
        None => 0,
    }
}

/// The digit character for a value between 0 and 9.
pub open spec fn digit_char_of(d: int) -> char {
    if d == 0 {
        '0'
    } else if d == 1 {
        '1'
    } else if d == 2 {
        '2'
    } else if d == 3 {
        '3'
    } else if d == 4 {
        '4'
    } else if d == 5 {
        '5'
    } else if d == 6 {
        '6'
    } else if d == 7 {
        '7'
    } else if d == 8 {
        '8'
    } else {
        '9'
    }
}

/// The decimal digit string of a non-negative number, most significant
/// digit first, no leading zeros (a single '0' for zero).
pub open spec fn dec_digits(n: int) -> Seq<char>
    recommends
        n >= 0,
    decreases n,
{
    if n < 10 {
        seq![digit_char_of(n)]
    } else {
        dec_digits(n / 10) + seq![digit_char_of(n % 10)]
    }
}

/// The numeric value of a digit string, most significant digit first.
pub open spec fn digits_val(s: Seq<char>) -> int
    decreases s.len(),
{
    if s.len() == 0 {
        0
    } else {
        digits_val(s.drop_last()) * 10 + digit_val_of(s.last())
    }
}

/// The first position at or after `i` holding a comma, or the length of
/// `s` if there is none.
pub open spec fn scan_comma(s: Seq<char>, i: int) -> int
    recommends
        0 <= i <= s.len(),
    decreases s.len() - i,
{
    if i >= s.len() {
        i
    } else if s[i] == ',' {
        i
    } else {
        scan_comma(s, i + 1)
    }
}

/// The first position at or after `i` holding a non-digit, or the length
/// of `s` if there is none.
pub open spec fn scan_digits(s: Seq<char>, i: int) -> int
    recommends
        0 <= i <= s.len(),
    decreases s.len() - i,
{
    if i >= s.len() {
        i
    } else if !is_digit_char(s[i]) {
        i
    } else {
        scan_digits(s, i + 1)
    }
}

/// Whether the wire text carries an explicit namespace segment: the
/// character right after the type digit is '/'.
pub open spec fn has_nsp_segment(s: Seq<char>) -> bool {
    s.len() > 1 && s[1] == '/'
}

/// The end of the namespace segment: the position of the separating comma,
/// or the end of the text if there is none.
pub open spec fn nsp_segment_end(s: Seq<char>) -> int {
    scan_comma(s, 1)
}

/// Where the ack-id scan starts: right after the namespace segment (and
/// its comma), or right after the type digit when there is no segment.
pub open spec fn ack_start(s: Seq<char>) -> int {
    if has_nsp_segment(s) {
        nsp_segment_end(s) + 1
    } else {
        1
    }
}

/// Whether the text carries an ack id: a decimal digit stands where the
/// ack-id scan starts.
pub open spec fn has_ack(s: Seq<char>) -> bool {
    ack_start(s) < s.len() && is_digit_char(s[ack_start(s)])
}

/// The end of the maximal digit run forming the ack id.
pub open spec fn ack_end(s: Seq<char>) -> int {
    scan_digits(s, ack_start(s))
}

/// The digit run forming the ack id.
pub open spec fn ack_run(s: Seq<char>) -> Seq<char> {
    s.subrange(ack_start(s), ack_end(s))
}

/// Where the payload text starts.
pub open spec fn payload_start(s: Seq<char>) -> int {
    if has_ack(s) {
        ack_end(s)
    } else {
        ack_start(s)
    }
}

/// The decoding of a wire text: the packet it denotes, or the exact error
/// it is rejected with.
pub open spec fn spec_decode(s: Seq<char>) -> Result<PacketV, CodecErrorV> {
    if s.len() == 0 {
        Err(CodecErrorV::EmptyInput)
    } else {
        match crate::spec_char_to_number(s[0]) {
            None => Err(CodecErrorV::UnknownPacketType),
            Some(v) => match type_of_code(v) {
                None => Err(CodecErrorV::UnknownPacketType),
                Some(t) => if t is BinaryEvent || t is BinaryAck {
                    Err(CodecErrorV::UnsupportedBinaryPacket)
                } else {
                    let nsp = if has_nsp_segment(s) {
                        s.subrange(1, nsp_segment_end(s))
                    } else {
                        seq!['/']
                    };
                    if has_ack(s) && digits_val(ack_run(s)) > u32::MAX {
                        Err(CodecErrorV::InvalidAckId)
                    } else {
                        let id = if has_ack(s) {
                            Some(digits_val(ack_run(s)) as u32)
                        } else {
                            None
                        };
                        let ps = payload_start(s);
                        if ps < s.len() {
                            let ptext = s.subrange(ps, s.len() as int);
                            if json_ok(ptext) {
                                Ok(PacketV { packet_type: t, nsp, id, data: Some(ptext) })
                            } else {
                                Err(CodecErrorV::InvalidPayload(ptext))
                            }
                        } else {
                            Ok(PacketV { packet_type: t, nsp, id, data: None })
                        }
                    }
                },
            },
        }
    }
}

/// The encoding of a packet: type digit, then the namespace and a comma
/// when the namespace is not "/", then the ack-id digits, then the payload
/// text, each part only when present.
pub open spec fn spec_encode(p: PacketV) -> Seq<char> {
    seq![type_digit_char(p.packet_type)] + (if p.nsp == seq!['/'] {
        Seq::<char>::empty()
    } else {
        p.nsp + seq![',']
    }) + (match p.id {
        Some(n) => dec_digits(n as int),
        None => Seq::<char>::empty(),
    }) + (match p.data {
        Some(t) => t,
        None => Seq::<char>::empty(),
    })
}

proof fn lemma_scan_comma_at(s: Seq<char>, i: int, j: int)
    requires
        0 <= i <= j <= s.len(),
        forall|k: int| i <= k < j ==> s[k] != ',',
        j == s.len() || s[j] == ',',
    ensures
        scan_comma(s, i) == j,
    decreases j - i,
{
    if i < j {
        lemma_scan_comma_at(s, i + 1, j);
    }
}

proof fn lemma_scan_digits_at(s: Seq<char>, i: int, j: int)
    requires
        0 <= i <= j <= s.len(),
        forall|k: int| i <= k < j ==> is_digit_char(s[k]),
        j == s.len() || !is_digit_char(s[j]),
    ensures
        scan_digits(s, i) == j,
    decreases j - i,
{
    if i < j {
        lemma_scan_digits_at(s, i + 1, j);
    }
}

proof fn lemma_dec_digits_are_digits(n: int)
    requires
        n >= 0,
    ensures
        dec_digits(n).len() >= 1,
        forall|k: int| 0 <= k < dec_digits(n).len() ==> is_digit_char(#[trigger] dec_digits(n)[k]),
    decreases n,
{
    if n >= 10 {
        lemma_dec_digits_are_digits(n / 10);
    }
}

proof fn lemma_digits_val_of_dec(n: int)
    requires
        n >= 0,
    ensures
        digits_val(dec_digits(n)) == n,
    decreases n,
{
    if n < 10 {
        let c = digit_char_of(n);
        assert(dec_digits(n) == seq![c]);
        assert(seq![c].drop_last() =~= Seq::<char>::empty());
        assert(seq![c].last() == c);
        assert(digits_val(seq![c]) == digits_val(Seq::<char>::empty()) * 10 + digit_val_of(c));
        assert(digit_val_of(c) == n);
    } else {
        lemma_digits_val_of_dec(n / 10);
        let x = dec_digits(n / 10);
        let m = n % 10;
        let c = digit_char_of(m);
        assert(0 <= m < 10);
        assert(dec_digits(n) == x + seq![c]);
        assert((x + seq![c]).drop_last() =~= x);
        assert((x + seq![c]).last() == c);
        assert(digit_val_of(c) == m);
        assert(digits_val(x + seq![c]) == digits_val(x) * 10 + digit_val_of(c));
        vstd::arithmetic::div_mod::lemma_fundamental_div_mod(n, 10);
        assert(digits_val(dec_digits(n)) == (n / 10) * 10 + m);
    }
}

proof fn lemma_digits_val_nonneg(s: Seq<char>)
    ensures
        digits_val(s) >= 0,
    decreases s.len(),
{
    if s.len() > 0 {
        lemma_digits_val_nonneg(s.drop_last());
        assert(digits_val(s.drop_last()) * 10 >= 0) by (nonlinear_arith)
            requires digits_val(s.drop_last()) >= 0;
    }
}

/// The codec itself: a stateless pair of pure functions.
#[derive(Debug)]
pub struct DefaultPacketCodec;

fn type_digit_str(t: SocketIoPacketType) -> (r: &'static str)
    ensures
        r@ =~= seq![type_digit_char(t)],
{
    proof {
        reveal_strlit("0");
        reveal_strlit("1");
        reveal_strlit("2");
        reveal_strlit("3");
        reveal_strlit("4");
        reveal_strlit("5");
        reveal_strlit("6");
    }
    match t {
        SocketIoPacketType::Connect => "0",
        SocketIoPacketType::Disconnect => "1",
        SocketIoPacketType::Event => "2",
        SocketIoPacketType::Ack => "3",
        SocketIoPacketType::Error => "4",
        SocketIoPacketType::BinaryEvent => "5",
        SocketIoPacketType::BinaryAck => "6",
    }
}

fn digit_str(d: u8) -> (r: &'static str)
    requires
        d < 10,
    ensures
        r@ =~= seq![digit_char_of(d as int)],
{
    proof {
        reveal_strlit("0");
        reveal_strlit("1");
        reveal_strlit("2");
        reveal_strlit("3");
        reveal_strlit("4");
        reveal_strlit("5");
        reveal_strlit("6");
        reveal_strlit("7");
        reveal_strlit("8");
        reveal_strlit("9");
    }
    match d {
        0 => "0",
        1 => "1",
        2 => "2",
        3 => "3",
        4 => "4",
        5 => "5",
        6 => "6",
        7 => "7",
        8 => "8",
        _ => "9",
    }
}

fn push_decimal(out: &mut String, n: u32)
    ensures
        final(out)@ == old(out)@ + dec_digits(n as int),
    decreases n,
{
    if n >= 10 {
        push_decimal(out, n / 10);
        out.append(digit_str((n % 10) as u8));
        assert(final(out)@ =~= old(out)@ + dec_digits(n as int));
    } else {
        out.append(digit_str(n as u8));
        assert(final(out)@ =~= old(out)@ + dec_digits(n as int));
    }
}

/// Whether a namespace string is exactly the default namespace "/".
fn is_root_nsp(s: &str) -> (r: bool)
    ensures
        r == (s@ == seq!['/']),
{
    let n = s.unicode_len();
    if n == 1 {
        let c = s.get_char(0);
        proof {
            if c == '/' {
                assert(s@ =~= seq!['/']);
            }
        }
        c == '/'
    } else {
        false
    }
}

impl DefaultPacketCodec {
    /// Renders a packet to its wire text. For every packet meeting the data
    /// model's invariant, decoding the rendered text gives the packet back.
    pub fn encode(&self, packet: &SocketIoPacket) -> (r: String)
        ensures
            r@ == spec_encode(packet@),
            packet_wf(packet@) ==> spec_decode(r@) == Ok::<PacketV, CodecErrorV>(packet@),
    {
        proof {
            match &packet.data {
                Some(j) => {
                    use_type_invariant(j);
                },
                None => {},
            }
            reveal_strlit(",");
        }
        let mut out: String = type_digit_str(packet.packet_type).to_owned();
        if !is_root_nsp(packet.nsp.as_str()) {
            out.append(packet.nsp.as_str());
            out.append(",");
        }
        match packet.id {
            Some(idv) => push_decimal(&mut out, idv),
            None => {},
        }
        match &packet.data {
            Some(j) => out.append(j.as_str()),
            None => {},
        }
        proof {
            assert(out@ =~= spec_encode(packet@));
            if packet_wf(packet@) {
                lemma_decode_encoded(packet@);
            }
        }
        out
    }

    /// Decodes a wire text into a packet, or the exact error the grammar
    /// assigns to it.
    pub fn decode(&self, data: &str) -> (r: Result<SocketIoPacket, PacketCodecError>)
        ensures
            ({
                let sd = spec_decode(data@);
                match r {
                    Ok(p) => sd matches Ok(pv) && p@ == pv,
                    Err(e) => sd matches Err(ev) && e@ == ev,
                }
            }),
    {
        let ghost s = data@;
        let n = data.unicode_len();
        if n == 0 {
            return Err(PacketCodecError::EmptyInput);
        }
        let c0 = data.get_char(0);
        let packet_type = match SocketIoPacketType::convert_from_char(c0) {
            Ok(t) => t,
            Err(()) => {
                return Err(PacketCodecError::UnknownPacketType);
            },
        };
        if packet_type == SocketIoPacketType::BinaryEvent || packet_type
            == SocketIoPacketType::BinaryAck {
            return Err(PacketCodecError::UnsupportedBinaryPacket);
        }
        // Namespace segment: everything between the type digit and the next
        // comma (or the end), taken only when a '/' follows the type digit.
        let mut idx: usize = 0;
        let nsp: String;
        if n > 1 && data.get_char(1) == '/' {
            let mut j: usize = 1;
            while j < n && data.get_char(j) != ','
                invariant
                    1 <= j <= n,
                    n == s.len(),
                    s == data@,
                    forall|k: int| 1 <= k < j ==> s[k] != ',',
                decreases n - j,
            {
                j += 1;
            }
            proof {
                lemma_scan_comma_at(s, 1, j as int);
            }
            nsp = data.substring_char(1, j).to_owned();
            idx = j;
        } else {
            nsp = "/".to_owned();
            proof {
                reveal_strlit("/");
                assert(nsp@ =~= seq!['/']);
            }
            idx = 0;
        }
        // Ack id: the maximal digit run starting right after the namespace
        // segment; a run too large for u32 is rejected.
        let mut id: Option<u32> = None;
        let mut after: usize = n;
        if idx < n {
            let astart = idx + 1;
            after = astart;
            if astart < n {
                let first = data.get_char(astart);
                match convert_char_to_number(first) {
                    Some(_) => {
                        let mut j: usize = astart;
                        let mut val: u32 = 0;
                        let mut overflow = false;
                        loop
                            invariant_except_break
                                astart <= j <= n,
                                n == s.len(),
                                s == data@,
                                astart < n,
                                is_digit_char(s[astart as int]),
                                forall|k: int| astart <= k < j ==> is_digit_char(s[k]),
                                !overflow ==> val == digits_val(
                                    s.subrange(astart as int, j as int),
                                ),
                                overflow ==> digits_val(s.subrange(astart as int, j as int))
                                    > u32::MAX,
                            ensures
                                astart <= j <= n,
                                forall|k: int| astart <= k < j ==> is_digit_char(s[k]),
                                j == n || !is_digit_char(s[j as int]),
                                !overflow ==> val == digits_val(
                                    s.subrange(astart as int, j as int),
                                ),
                                overflow ==> digits_val(s.subrange(astart as int, j as int))
                                    > u32::MAX,
                            decreases n - j,
                        {
                            if j >= n {
                                break;
                            }
                            let c = data.get_char(j);
                            let dv = match convert_char_to_number(c) {
                                Some(d) => d,
                                None => {
                                    break;
                                },
                            };
                            let ghost pre = s.subrange(astart as int, j as int);
                            let ghost ext = s.subrange(astart as int, j as int + 1);
                            proof {
                                assert(ext.drop_last() =~= pre);
                                assert(ext.last() == s[j as int]);
                                lemma_digits_val_nonneg(pre);
                            }
                            if !overflow {
                                let dd = dv as u32;
                                if val <= (u32::MAX - dd) / 10 {
                                    proof {
                                        assert(val * 10 + dd <= u32::MAX) by (nonlinear_arith)
                                            requires
                                                val <= (u32::MAX - dd) / 10,
                                                0 <= dd <= 9,
                                                (u32::MAX - dd) == ((u32::MAX - dd) / 10) * 10 + (
                                                (u32::MAX - dd) % 10),
                                                0 <= (u32::MAX - dd) % 10 < 10,
                                        ;
                                    }
                                    proof {
                                        vstd::arithmetic::div_mod::lemma_fundamental_div_mod(
                                            u32::MAX - dd,
                                            10,
                                        );
                                    }
                                    let newval = val * 10 + dd;
                                    proof {
                                        assert(digits_val(ext) == digits_val(pre) * 10
                                            + digit_val_of(ext.last()));
                                    }
                                    val = newval;
                                } else {
                                    proof {
                                        vstd::arithmetic::div_mod::lemma_fundamental_div_mod(
                                            (u32::MAX - dv as u32) as int,
                                            10,
                                        );
                                        assert(val * 10 + dv > u32::MAX) by (nonlinear_arith)
                                            requires
                                                val > (u32::MAX - dv) / 10,
                                                0 <= dv <= 9,
                                                (u32::MAX - dv) == ((u32::MAX - dv) / 10) * 10 + (
                                                (u32::MAX - dv) % 10),
                                                0 <= (u32::MAX - dv) % 10 < 10,
                                        ;
                                        assert(digits_val(ext) == digits_val(pre) * 10
                                            + digit_val_of(ext.last()));
                                    }
                                    overflow = true;
                                }
                            } else {
                                proof {
                                    assert(digits_val(ext) == digits_val(pre) * 10 + digit_val_of(
                                        ext.last(),
                                    ));
                                    assert(digits_val(pre) * 10 + digit_val_of(ext.last())
                                        > u32::MAX) by (nonlinear_arith)
                                        requires
                                            digits_val(pre) > u32::MAX,
                                            digit_val_of(ext.last()) >= 0,
                                    ;
                                }
                            }
                            j += 1;
                        }
                        proof {
                            lemma_scan_digits_at(s, astart as int, j as int);
                        }
                        if overflow {
                            return Err(PacketCodecError::InvalidAckId);
                        }
                        id = Some(val);
                        after = j;
                    },
                    None => {},
                }
            }
        }
        // Payload: whatever remains, validated as JSON text.
        let data_field: Option<JsonText>;
        if after < n {
            let rem = data.substring_char(after, n);
            match JsonText::parse(rem) {
                Some(jt) => {
                    data_field = Some(jt);
                },
                None => {
                    return Err(PacketCodecError::InvalidPayload(rem.to_owned()));
                },
            }
        } else {
            data_field = None;
        }
        Ok(SocketIoPacket { packet_type, nsp, id, data: data_field })
    }
}

/// Decoding inverts encoding: the central codec law, used by `encode` to
/// discharge its round-trip clause.
proof fn lemma_decode_encoded(p: PacketV)
    requires
        packet_wf(p),
        p.data matches Some(t) ==> json_ok(t) && t.len() > 0 && t[0] != '/' && t[0] != ',',
    ensures
        spec_decode(spec_encode(p)) == Ok::<PacketV, CodecErrorV>(p),
{
    let s = spec_encode(p);
    let ns: Seq<char> = if p.nsp == seq!['/'] {
        Seq::<char>::empty()
    } else {
        p.nsp + seq![',']
    };
    let mid: Seq<char> = match p.id {
        Some(n) => dec_digits(n as int),
        None => Seq::<char>::empty(),
    };
    let dt: Seq<char> = match p.data {
        Some(t) => t,
        None => Seq::<char>::empty(),
    };
    assert(s =~= seq![type_digit_char(p.packet_type)] + ns + mid + dt);
    assert(s[0] == type_digit_char(p.packet_type));
    assert(crate::spec_char_to_number(s[0]) == Some(type_code(p.packet_type)));
    assert(type_of_code(type_code(p.packet_type)) == Some(p.packet_type));
    if let Some(n) = p.id {
        lemma_dec_digits_are_digits(n as int);
        lemma_digits_val_of_dec(n as int);
    }
    let nb: int = 1 + ns.len() as int;
    let mb: int = nb + mid.len() as int;
    // Where the namespace segment ends and the ack scan starts.
    if p.nsp == seq!['/'] {
        assert(!has_nsp_segment(s)) by {
            if s.len() > 1 {
                if mid.len() > 0 {
                    assert(s[1] == mid[0]);
                    assert(is_digit_char(mid[0]));
                } else {
                    assert(s[1] == dt[0]);
                }
            }
        }
        assert(ack_start(s) == 1);
    } else {
        assert(p.nsp.len() >= 2) by {
            if p.nsp.len() == 1 {
                assert(p.nsp =~= seq!['/']);
            }
        }
        assert(s[1] == p.nsp[0]);
        assert(has_nsp_segment(s));
        assert(forall|k: int| 1 <= k < nb - 1 ==> s[k] == p.nsp[k - 1]);
        assert(s[nb - 1] == ns[ns.len() - 1]);
        assert(s[nb - 1] == ',');
        lemma_scan_comma_at(s, 1, nb - 1);
        assert(nsp_segment_end(s) == nb - 1);
        assert(s.subrange(1, nb - 1) =~= p.nsp);
        assert(ack_start(s) == nb);
    }
    let a: int = ack_start(s);
    assert(a == if p.nsp == seq!['/'] { 1int } else { nb });
    // The ack id run.
    match p.id {
        Some(n) => {
            assert(forall|k: int| a <= k < a + mid.len() ==> s[k] == mid[k - a]);
            assert(is_digit_char(s[a]));
            assert(has_ack(s));
            if dt.len() > 0 {
                assert(s[mb] == dt[0]);
                assert(!is_digit_char(s[mb]));
            }
            lemma_scan_digits_at(s, a, mb);
            assert(ack_end(s) == mb);
            assert(ack_run(s) =~= mid);
            assert(digits_val(ack_run(s)) == n as int);
            assert(payload_start(s) == mb);
        },
        None => {
            assert(mid.len() == 0);
            if a < s.len() {
                assert(s[a] == dt[a - mb + mid.len()]) by {
                    assert(a == mb);
                }
                assert(!is_digit_char(s[a]));
            }
            assert(!has_ack(s));
            assert(payload_start(s) == a);
            assert(a == mb);
        },
    }
    // The payload.
    match p.data {
        Some(t) => {
            assert(t.len() > 0);
            assert(payload_start(s) == mb);
            assert(mb < s.len());
            assert(s.subrange(mb, s.len() as int) =~= t);
            assert(json_ok(t));
        },
        None => {
            assert(payload_start(s) == s.len());
        },
    }
    // Assemble: every component decodes back to the packet's own field.
    match spec_decode(s) {
        Ok(q) => {
            assert(q.packet_type == p.packet_type);
            assert(q.nsp == p.nsp) by {
                if p.nsp != seq!['/'] {
                    assert(s.subrange(1, nsp_segment_end(s)) =~= p.nsp);
                }
            }
            assert(q.id == p.id);
            assert(q.data == p.data);
        },
        Err(_) => {
            assert(false);
        },
    }
}

} // verus!
