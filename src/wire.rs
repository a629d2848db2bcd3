use vstd::prelude::*;
use vstd::slice::{slice_subrange, slice_to_vec};
use vstd::utf8::{decode_utf8, encode_utf8, valid_utf8};

verus! {

/// Base-128 varint: seven bits per byte, least significant group first, the
/// high bit set on every byte but the last.
pub open spec fn varint(v: nat) -> Seq<u8>
    decreases v,
{
    if v < 128 {
        seq![v as u8]
    } else {
        seq![(v % 128 + 128) as u8] + varint(v / 128)
    }
}

/// `s` holds the varint of `v` starting at `at`.
pub open spec fn varint_at(s: Seq<u8>, at: int, v: nat) -> bool {
    &&& 0 <= at
    &&& at + varint(v).len() <= s.len()
    &&& s.subrange(at, at + varint(v).len()) == varint(v)
}

pub proof fn lemma_varint_nonempty(v: nat)
    ensures
        varint(v).len() >= 1,
        varint(v)[0] < 128 <==> v < 128,
    decreases v,
{
    if v >= 128 {
        lemma_varint_nonempty(v / 128);
    }
}

/// No two values have varints that both start `s` at `at`.
pub proof fn lemma_varint_unique(s: Seq<u8>, at: int, x: nat, y: nat)
    requires
        varint_at(s, at, x),
        varint_at(s, at, y),
    ensures
        x == y,
    decreases x,
{
    lemma_varint_nonempty(x);
    lemma_varint_nonempty(y);
    assert(s[at] == varint(x)[0]) by {
        assert(s.subrange(at, at + varint(x).len())[0] == s[at]);
    }
    assert(s[at] == varint(y)[0]) by {
        assert(s.subrange(at, at + varint(y).len())[0] == s[at]);
    }
    if x >= 128 && y >= 128 {
        let tx = varint(x / 128);
        let ty = varint(y / 128);
        assert(varint(x).subrange(1, varint(x).len() as int) =~= tx);
        assert(varint(y).subrange(1, varint(y).len() as int) =~= ty);
        assert(s.subrange(at + 1, at + 1 + tx.len()) =~= tx) by {
            assert(s.subrange(at + 1, at + 1 + tx.len()) =~= s.subrange(
                at,
                at + varint(x).len(),
            ).subrange(1, varint(x).len() as int));
        }
        assert(s.subrange(at + 1, at + 1 + ty.len()) =~= ty) by {
            assert(s.subrange(at + 1, at + 1 + ty.len()) =~= s.subrange(
                at,
                at + varint(y).len(),
            ).subrange(1, varint(y).len() as int));
        }
        lemma_varint_unique(s, at + 1, x / 128, y / 128);
    }
}

/// Appends the varint of `v`.
pub fn put_varint(out: &mut Vec<u8>, v: u64)
    ensures
        final(out)@ == old(out)@ + varint(v as nat),
    decreases v,
{
    if v < 128 {
        out.push(v as u8);
    } else {
        let ghost before = out@;
        out.push((v % 128 + 128) as u8);
        put_varint(out, v / 128);
        assert(out@ =~= before + varint(v as nat));
    }
}

/// Reads the varint that starts `s` at `at`, giving its value and the index
/// just past it.
pub fn read_varint(s: &[u8], at: usize) -> (r: Option<(u64, usize)>)
    ensures
        match r {
            Some((v, next)) => varint_at(s@, at as int, v as nat) && next == at + varint(
                v as nat,
            ).len(),
            None => forall|v: nat| v <= u64::MAX ==> !varint_at(s@, at as int, v),
        },
    decreases s@.len() - at,
{
    if at >= s.len() {
        proof {
            assert forall|v: nat| v <= u64::MAX implies !varint_at(s@, at as int, v) by {
                lemma_varint_nonempty(v);
            }
        }
        return None;
    }
    let b = s[at];
    if b < 128 {
        assert(s@.subrange(at as int, at + 1) =~= varint(b as nat));
        return Some((b as u64, at + 1));
    }
    let low: u64 = (b - 128) as u64;
    match read_varint(s, at + 1) {
        Some((w, next)) => {
            if w != 0 && w <= (u64::MAX - low) / 128 {
                let v: u64 = low + 128 * w;
                proof {
                    assert(v / 128 == w && v % 128 == low) by (nonlinear_arith)
                        requires
                            v == low + 128 * w,
                            0 <= low < 128,
                    ;
                    assert(v >= 128) by (nonlinear_arith)
                        requires
                            v == low + 128 * w,
                            w >= 1,
                    ;
                    let sub = s@.subrange(at as int, next as int);
                    assert(sub =~= seq![b] + s@.subrange(at + 1, next as int));
                    assert(varint(v as nat) =~= seq![b] + varint(w as nat));
                }
                Some((v, next))
            } else {
                proof {
                    assert forall|v: nat| v <= u64::MAX implies !varint_at(s@, at as int, v) by {
                        if varint_at(s@, at as int, v) {
                            lemma_varint_nonempty(v);
                            assert(s@[at as int] == varint(v)[0]) by {
                                assert(s@.subrange(at as int, at + varint(v).len())[0]
                                    == s@[at as int]);
                            }
                            assert(v >= 128);
                            let t = varint(v / 128);
                            assert(s@.subrange(at + 1, at + 1 + t.len()) =~= s@.subrange(
                                at as int,
                                at + varint(v).len(),
                            ).subrange(1, varint(v).len() as int));
                            assert(varint(v).subrange(1, varint(v).len() as int) =~= t);
                            lemma_varint_unique(s@, at + 1, w as nat, v / 128);
                            assert(false) by (nonlinear_arith)
                                requires
                                    w == v / 128,
                                    v >= 128,
                                    v <= u64::MAX,
                                    low == v % 128,
                                    !(w != 0 && w <= (u64::MAX - low) / 128),
                            ;
                        }
                    }
                }
                None
            }
        },
        None => {
            proof {
                assert forall|v: nat| v <= u64::MAX implies !varint_at(s@, at as int, v) by {
                    if varint_at(s@, at as int, v) {
                        lemma_varint_nonempty(v);
                        assert(s@[at as int] == varint(v)[0]) by {
                            assert(s@.subrange(at as int, at + varint(v).len())[0]
                                == s@[at as int]);
                        }
                        let t = varint(v / 128);
                        assert(s@.subrange(at + 1, at + 1 + t.len()) =~= s@.subrange(
                            at as int,
                            at + varint(v).len(),
                        ).subrange(1, varint(v).len() as int));
                        assert(varint(v).subrange(1, varint(v).len() as int) =~= t);
                        assert(varint_at(s@, at + 1, v / 128));
                    }
                }
            }
            None
        },
    }
}

/// A length-delimited field: its key byte, the varint of the body's length,
/// then the body.
pub open spec fn len_field(key: u8, body: Seq<u8>) -> Seq<u8> {
    seq![key] + varint(body.len()) + body
}

/// Appends a length-delimited field.
fn put_len_field(out: &mut Vec<u8>, key: u8, body: &[u8])
    ensures
        final(out)@ == old(out)@ + len_field(key, body@),
{
    let ghost before = out@;
    out.push(key);
    put_varint(out, body.len() as u64);
    let mut copy = slice_to_vec(body);
    out.append(&mut copy);
    assert(out@ =~= before + len_field(key, body@));
}

/// The device that a wake request names.
#[derive(Clone, Debug, PartialEq, Eq)]
pub struct Device {
    pub device_id: i32,
    pub name: String,
    pub mac_address: String,
}

pub struct DeviceView {
    pub device_id: i32,
    pub name: Seq<char>,
    pub mac_address: Seq<char>,
}

impl View for Device {
    type V = DeviceView;

    open spec fn view(&self) -> DeviceView {
        DeviceView { device_id: self.device_id, name: self.name@, mac_address: self.mac_address@ }
    }
}

/// The envelope exchanged between the server and an agent.
#[derive(Clone, Debug, PartialEq, Eq)]
pub enum WakeMessage {
    WakeUpRequest(Device),
    WakeUpResponse(bool),
}

pub enum MessageView {
    WakeUpRequest(DeviceView),
    WakeUpResponse(bool),
}

impl View for WakeMessage {
    type V = MessageView;

    open spec fn view(&self) -> MessageView {
        match self {
            WakeMessage::WakeUpRequest(d) => MessageView::WakeUpRequest(d@),
            WakeMessage::WakeUpResponse(b) => MessageView::WakeUpResponse(*b),
        }
    }
}

pub const KEY_FIELD_1_VARINT: u8 = 0x08;
pub const KEY_FIELD_1_BYTES: u8 = 0x0a;
pub const KEY_FIELD_2_BYTES: u8 = 0x12;
pub const KEY_FIELD_3_BYTES: u8 = 0x1a;

/// A 32-bit signed value as a varint carries it: sign-extended to 64 bits.
pub open spec fn int32_bits(v: i32) -> nat {
    if v < 0 {
        (v + 0x1_0000_0000_0000_0000int) as nat
    } else {
        v as nat
    }
}

/// Device record: id (field 1), name (field 2), MAC address text (field 3).
pub open spec fn device_bytes(d: DeviceView) -> Seq<u8> {
    seq![KEY_FIELD_1_VARINT] + varint(int32_bits(d.device_id)) + len_field(
        KEY_FIELD_2_BYTES,
        encode_utf8(d.name),
    ) + len_field(KEY_FIELD_3_BYTES, encode_utf8(d.mac_address))
}

/// Acknowledgement record: success (field 1).
pub open spec fn flag_bytes(b: bool) -> Seq<u8> {
    seq![KEY_FIELD_1_VARINT, if b { 1u8 } else { 0u8 }]
}

/// The envelope: a request (field 1) wraps the device (its field 1); a
/// response (field 2) wraps the acknowledgement record (its field 1).
pub open spec fn message_bytes(m: MessageView) -> Seq<u8> {
    match m {
        MessageView::WakeUpRequest(d) => len_field(
            KEY_FIELD_1_BYTES,
            len_field(KEY_FIELD_1_BYTES, device_bytes(d)),
        ),
        MessageView::WakeUpResponse(b) => len_field(
            KEY_FIELD_2_BYTES,
            len_field(KEY_FIELD_1_BYTES, flag_bytes(b)),
        ),
    }
}

fn encode_device(d: &Device) -> (r: Vec<u8>)
    ensures
        r@ == device_bytes(d@),
{
    let mut out: Vec<u8> = Vec::new();
    out.push(KEY_FIELD_1_VARINT);
    let bits: u64 = if d.device_id < 0 {
        u64::MAX - ((0i64 - d.device_id as i64) - 1) as u64
    } else {
        d.device_id as u64
    };
    put_varint(&mut out, bits);
    put_len_field(&mut out, KEY_FIELD_2_BYTES, d.name.as_str().as_bytes());
    put_len_field(&mut out, KEY_FIELD_3_BYTES, d.mac_address.as_str().as_bytes());
    assert(out@ =~= device_bytes(d@));
    out
}

/// The bytes of an envelope.
pub fn encode_message(m: &WakeMessage) -> (r: Vec<u8>)
    ensures
        r@ == message_bytes(m@),
{
    let mut inner: Vec<u8> = Vec::new();
    let key = match m {
        WakeMessage::WakeUpRequest(d) => {
            let body = encode_device(d);
            put_len_field(&mut inner, KEY_FIELD_1_BYTES, body.as_slice());
            KEY_FIELD_1_BYTES
        },
        WakeMessage::WakeUpResponse(b) => {
            let flag: Vec<u8> = vec![KEY_FIELD_1_VARINT, if *b { 1u8 } else { 0u8 }];
            assert(flag@ =~= flag_bytes(*b));
            put_len_field(&mut inner, KEY_FIELD_1_BYTES, flag.as_slice());
            KEY_FIELD_2_BYTES
        },
    };
    let mut out: Vec<u8> = Vec::new();
    put_len_field(&mut out, key, inner.as_slice());
    assert(out@ =~= message_bytes(m@));
    out
}

/// Relies on std's `String::from_utf8`: it succeeds exactly when the bytes are
/// valid UTF-8, and the string then holds the characters they encode.
#[verifier::external_body]
fn utf8_string(b: Vec<u8>) -> (r: Option<String>)
    ensures
        match r {
            Some(t) => valid_utf8(b@) && t@ == decode_utf8(b@),
            None => !valid_utf8(b@),
        },
{
    String::from_utf8(b).ok()
}

/// The text that the UTF-8 bytes `s[lo..hi]` encode.
fn read_text(s: &[u8], lo: usize, hi: usize) -> (r: Option<String>)
    requires
        lo <= hi <= s@.len(),
    ensures
        match r {
            Some(t) => valid_utf8(s@.subrange(lo as int, hi as int)) && t@ == decode_utf8(
                s@.subrange(lo as int, hi as int),
            ),
            None => !valid_utf8(s@.subrange(lo as int, hi as int)),
        },
{
    utf8_string(slice_to_vec(slice_subrange(s, lo, hi)))
}

/// The acknowledgement record alone, as the HTTP control path answers a wake
/// call.
pub fn encode_basic_response(success: bool) -> (r: Vec<u8>)
    ensures
        r@ == flag_bytes(success),
{
    let r: Vec<u8> = vec![KEY_FIELD_1_VARINT, if success { 1u8 } else { 0u8 }];
    assert(r@ =~= flag_bytes(success));
    r
}

/// The value of one field, by its wire type.
pub enum WireValue {
    /// Wire type 0.
    Varint(nat),
    /// Wire type 2: the field's body.
    Bytes(Seq<u8>),
    /// Wire types 1 and 5: eight or four bytes that no message here reads.
    Fixed,
}

/// The key that starts `b`, if a varint starts it.
pub open spec fn key_at(b: Seq<u8>) -> Option<nat> {
    if exists|key: nat| key <= u64::MAX && varint_at(b, 0, key) {
        Some(choose|key: nat| key <= u64::MAX && varint_at(b, 0, key))
    } else {
        None
    }
}

/// The varint that starts `b` at `at`.
pub open spec fn varint_value_at(b: Seq<u8>, at: int) -> Option<nat> {
    if exists|v: nat| v <= u64::MAX && varint_at(b, at, v) {
        Some(choose|v: nat| v <= u64::MAX && varint_at(b, at, v))
    } else {
        None
    }
}

/// The field that starts `b`: its number, its value and its length in bytes.
/// A key is a varint holding the field number times eight plus the wire type;
/// number 0, wire types 3, 4, 6 and 7, and a field cut short give `None`.
/// Varints are read in their shortest form, as every encoder writes them.
pub open spec fn field_at(b: Seq<u8>) -> Option<(nat, WireValue, nat)> {
    match key_at(b) {
        None => None,
        Some(key) => {
            let k = varint(key).len();
            let num = key / 8;
            let wire_type = key % 8;
            if num == 0 {
                None
            } else if wire_type == 0 {
                match varint_value_at(b, k as int) {
                    Some(v) => Some((num, WireValue::Varint(v), k + varint(v).len())),
                    None => None,
                }
            } else if wire_type == 2 {
                match varint_value_at(b, k as int) {
                    Some(n) => {
                        let lo = k + varint(n).len();
                        if lo + n <= b.len() {
                            Some((num, WireValue::Bytes(b.subrange(lo as int, (lo + n) as int)), lo + n))
                        } else {
                            None
                        }
                    },
                    None => None,
                }
            } else if wire_type == 1 && k + 8 <= b.len() {
                Some((num, WireValue::Fixed, k + 8))
            } else if wire_type == 5 && k + 4 <= b.len() {
                Some((num, WireValue::Fixed, k + 4))
            } else {
                None
            }
        },
    }
}

/// Folds `step` over the fields of the message `b`, in order; `None` when a
/// field does not read or `step` refuses one.
pub open spec fn scan<A>(b: Seq<u8>, acc: A, step: spec_fn(A, nat, WireValue) -> Option<A>) -> Option<A>
    decreases b.len(),
{
    if b.len() == 0 {
        Some(acc)
    } else {
        match field_at(b) {
            Some((num, v, l)) => if 1 <= l <= b.len() {
                match step(acc, num, v) {
                    Some(next) => scan(b.subrange(l as int, b.len() as int), next, step),
                    None => None,
                }
            } else {
                None
            },
            None => None,
        }
    }
}

proof fn lemma_varint_at_shift(s: Seq<u8>, pos: int, j: int, v: nat)
    requires
        0 <= pos <= s.len(),
        0 <= j,
    ensures
        varint_at(s.subrange(pos, s.len() as int), j, v) == varint_at(s, pos + j, v),
{
    let b = s.subrange(pos, s.len() as int);
    if j + varint(v).len() <= b.len() {
        assert(b.subrange(j, j + varint(v).len()) =~= s.subrange(pos + j, pos + j + varint(v).len()));
    }
}

/// The value of a field as the reader hands it out: a varint, the bounds of a
/// body, or a fixed-width value.
pub enum FieldValue {
    Varint(u64),
    Bytes(usize, usize),
    Fixed,
}

pub open spec fn value_matches(fv: FieldValue, v: WireValue, s: Seq<u8>) -> bool {
    match (fv, v) {
        (FieldValue::Varint(x), WireValue::Varint(y)) => x as nat == y,
        (FieldValue::Bytes(lo, hi), WireValue::Bytes(body)) => lo <= hi <= s.len() && body
            == s.subrange(lo as int, hi as int),
        (FieldValue::Fixed, WireValue::Fixed) => true,
        _ => false,
    }
}

/// Reads the varint that starts `s` at `at`, against `varint_value_at`.
fn read_varint_value(s: &[u8], at: usize) -> (r: Option<(u64, usize)>)
    ensures
        match varint_value_at(s@, at as int) {
            Some(v) => r matches Some((x, next)) && x == v && next == at + varint(v).len(),
            None => r is None,
        },
{
    let r = read_varint(s, at);
    proof {
        if let Some((x, next)) = r {
            let c = choose|v: nat| v <= u64::MAX && varint_at(s@, at as int, v);
            lemma_varint_unique(s@, at as int, c, x as nat);
        }
    }
    r
}

/// Reads the field that starts `s` at `pos`.
pub fn read_field(s: &[u8], pos: usize) -> (r: Option<(u64, FieldValue, usize)>)
    requires
        pos <= s@.len(),
    ensures
        match field_at(s@.subrange(pos as int, s@.len() as int)) {
            None => r is None,
            Some((num, v, l)) => r matches Some((n, fv, next)) && n == num && next == pos + l
                && value_matches(fv, v, s@) && pos < next <= s@.len(),
        },
{
    let ghost b = s@.subrange(pos as int, s@.len() as int);
    let len = s.len();
    let (key, k) = match read_varint_value(s, pos) {
        Some(x) => x,
        None => {
            proof {
                if key_at(b) is Some {
                    let c = choose|key: nat| key <= u64::MAX && varint_at(b, 0, key);
                    lemma_varint_at_shift(s@, pos as int, 0, c);
                }
            }
            return None;
        },
    };
    proof {
        lemma_varint_at_shift(s@, pos as int, 0, key as nat);
        let c = choose|key: nat| key <= u64::MAX && varint_at(b, 0, key);
        lemma_varint_unique(b, 0, c, key as nat);
        lemma_varint_nonempty(key as nat);
        assert(key_at(b) == Some(key as nat));
    }
    let num = key / 8;
    let wire_type = key % 8;
    if num == 0 {
        return None;
    }
    if wire_type == 0 || wire_type == 2 {
        let (v, next) = match read_varint_value(s, k) {
            Some(x) => x,
            None => {
                proof {
                    let kk = varint(key as nat).len() as int;
                    if varint_value_at(b, kk) is Some {
                        let c = choose|v: nat| v <= u64::MAX && varint_at(b, kk, v);
                        lemma_varint_at_shift(s@, pos as int, kk, c);
                    }
                }
                return None;
            },
        };
        proof {
            let kk = varint(key as nat).len() as int;
            lemma_varint_at_shift(s@, pos as int, kk, v as nat);
            let c = choose|w: nat| w <= u64::MAX && varint_at(b, kk, w);
            lemma_varint_unique(b, kk, c, v as nat);
            assert(varint_value_at(b, kk) == Some(v as nat));
            lemma_varint_nonempty(v as nat);
        }
        if wire_type == 0 {
            return Some((num, FieldValue::Varint(v), next));
        }
        if v > (len - next) as u64 {
            return None;
        }
        let hi = next + v as usize;
        proof {
            let kk = varint(key as nat).len() as int;
            let lo = kk + varint(v as nat).len();
            assert(b.subrange(lo, lo + v) =~= s@.subrange(next as int, hi as int));
        }
        return Some((num, FieldValue::Bytes(next, hi), hi));
    }
    if wire_type == 1 && len - k >= 8 {
        return Some((num, FieldValue::Fixed, k + 8));
    }
    if wire_type == 5 && len - k >= 4 {
        return Some((num, FieldValue::Fixed, k + 4));
    }
    None
}

/// The envelope's fields: field 1 holds a request, field 2 a response; the
/// last of them wins and other fields are skipped.
pub open spec fn envelope_step(acc: Option<(bool, Seq<u8>)>, num: nat, v: WireValue) -> Option<
    Option<(bool, Seq<u8>)>,
> {
    if num == 1 || num == 2 {
        match v {
            WireValue::Bytes(body) => Some(Some((num == 1, body))),
            _ => None,
        }
    } else {
        Some(acc)
    }
}

/// A wrapper's fields: field 1 holds the wrapped message, empty when absent.
pub open spec fn body_step(acc: Seq<u8>, num: nat, v: WireValue) -> Option<Seq<u8>> {
    if num == 1 {
        match v {
            WireValue::Bytes(body) => Some(body),
            _ => None,
        }
    } else {
        Some(acc)
    }
}

/// A device record's fields: id (1), name (2) and MAC address text (3).
pub open spec fn device_step(acc: (nat, Seq<u8>, Seq<u8>), num: nat, v: WireValue) -> Option<
    (nat, Seq<u8>, Seq<u8>),
> {
    if num == 1 {
        match v {
            WireValue::Varint(x) => Some((x, acc.1, acc.2)),
            _ => None,
        }
    } else if num == 2 {
        match v {
            WireValue::Bytes(b) => Some((acc.0, b, acc.2)),
            _ => None,
        }
    } else if num == 3 {
        match v {
            WireValue::Bytes(b) => Some((acc.0, acc.1, b)),
            _ => None,
        }
    } else {
        Some(acc)
    }
}

/// An acknowledgement record's fields: success (1), zero when absent.
pub open spec fn flag_step(acc: nat, num: nat, v: WireValue) -> Option<nat> {
    if num == 1 {
        match v {
            WireValue::Varint(x) => Some(x),
            _ => None,
        }
    } else {
        Some(acc)
    }
}

pub open spec fn envelope_fields() -> spec_fn(Option<(bool, Seq<u8>)>, nat, WireValue) -> Option<
    Option<(bool, Seq<u8>)>,
> {
    |a: Option<(bool, Seq<u8>)>, n: nat, v: WireValue| envelope_step(a, n, v)
}

pub open spec fn body_fields() -> spec_fn(Seq<u8>, nat, WireValue) -> Option<Seq<u8>> {
    |a: Seq<u8>, n: nat, v: WireValue| body_step(a, n, v)
}

pub open spec fn device_fields() -> spec_fn((nat, Seq<u8>, Seq<u8>), nat, WireValue) -> Option<
    (nat, Seq<u8>, Seq<u8>),
> {
    |a: (nat, Seq<u8>, Seq<u8>), n: nat, v: WireValue| device_step(a, n, v)
}

pub open spec fn flag_fields() -> spec_fn(nat, nat, WireValue) -> Option<nat> {
    |a: nat, n: nat, v: WireValue| flag_step(a, n, v)
}

/// The low 32 bits of a varint, as a signed value.
pub open spec fn low_i32(v: nat) -> i32 {
    let w = v % 0x1_0000_0000;
    if w >= 0x8000_0000 {
        (w - 0x1_0000_0000) as i32
    } else {
        w as i32
    }
}

/// The device that a device record describes; its texts must be UTF-8.
pub open spec fn device_of(b: Seq<u8>) -> Option<DeviceView> {
    match scan(b, (0nat, Seq::<u8>::empty(), Seq::<u8>::empty()), device_fields()) {
        Some((id, name, mac)) => if valid_utf8(name) && valid_utf8(mac) {
            Some(
                DeviceView {
                    device_id: low_i32(id),
                    name: decode_utf8(name),
                    mac_address: decode_utf8(mac),
                },
            )
        } else {
            None
        },
        None => None,
    }
}

/// The envelope that the bytes `b` carry, if any.
pub open spec fn envelope_of(b: Seq<u8>) -> Option<MessageView> {
    match scan(b, None, envelope_fields()) {
        Some(Some((true, wrapper))) => match scan(wrapper, Seq::<u8>::empty(), body_fields()) {
            Some(record) => match device_of(record) {
                Some(d) => Some(MessageView::WakeUpRequest(d)),
                None => None,
            },
            None => None,
        },
        Some(Some((false, wrapper))) => match scan(wrapper, Seq::<u8>::empty(), body_fields()) {
            Some(record) => match scan(record, 0nat, flag_fields()) {
                Some(x) => Some(MessageView::WakeUpResponse(x != 0)),
                None => None,
            },
            None => None,
        },
        _ => None,
    }
}

/// The body that field 1 of the wrapper `s` holds, as bounds into `s`.
fn scan_body(s: &[u8]) -> (r: Option<(usize, usize)>)
    ensures
        match scan(s@, Seq::<u8>::empty(), body_fields()) {
            Some(body) => r matches Some((lo, hi)) && lo <= hi <= s@.len() && s@.subrange(
                lo as int,
                hi as int,
            ) == body,
            None => r is None,
        },
{
    let len = s.len();
    let mut pos: usize = 0;
    let mut lo: usize = 0;
    let mut hi: usize = 0;
    assert(s@.subrange(0, len as int) =~= s@);
    assert(s@.subrange(0, 0) =~= Seq::<u8>::empty());
    while pos < len
        invariant
            len == s@.len(),
            pos <= len,
            lo <= hi <= len,
            scan(s@.subrange(pos as int, len as int), s@.subrange(lo as int, hi as int), body_fields())
                == scan(s@, Seq::<u8>::empty(), body_fields()),
        decreases len - pos,
    {
        let ghost b = s@.subrange(pos as int, len as int);
        match read_field(s, pos) {
            None => return None,
            Some((num, fv, next)) => {
                if num == 1 {
                    match fv {
                        FieldValue::Bytes(a, c) => {
                            lo = a;
                            hi = c;
                        },
                        _ => return None,
                    }
                }
                assert(b.subrange(next - pos, b.len() as int) =~= s@.subrange(next as int, len as int));
                pos = next;
            },
        }
    }
    Some((lo, hi))
}

/// The success value of the acknowledgement record `s`.
fn scan_flag(s: &[u8]) -> (r: Option<u64>)
    ensures
        match scan(s@, 0nat, flag_fields()) {
            Some(x) => r matches Some(y) && y == x,
            None => r is None,
        },
{
    let len = s.len();
    let mut pos: usize = 0;
    let mut flag: u64 = 0;
    assert(s@.subrange(0, len as int) =~= s@);
    while pos < len
        invariant
            len == s@.len(),
            pos <= len,
            scan(s@.subrange(pos as int, len as int), flag as nat, flag_fields()) == scan(
                s@,
                0nat,
                flag_fields(),
            ),
        decreases len - pos,
    {
        let ghost b = s@.subrange(pos as int, len as int);
        match read_field(s, pos) {
            None => return None,
            Some((num, fv, next)) => {
                if num == 1 {
                    match fv {
                        FieldValue::Varint(x) => {
                            flag = x;
                        },
                        _ => return None,
                    }
                }
                assert(b.subrange(next - pos, b.len() as int) =~= s@.subrange(next as int, len as int));
                pos = next;
            },
        }
    }
    Some(flag)
}

/// The id and the bounds of the name and MAC address of the device record `s`.
fn scan_device(s: &[u8]) -> (r: Option<(u64, usize, usize, usize, usize)>)
    ensures
        match scan(s@, (0nat, Seq::<u8>::empty(), Seq::<u8>::empty()), device_fields()) {
            Some((id, name, mac)) => r matches Some((x, nlo, nhi, mlo, mhi)) && x == id && nlo
                <= nhi <= s@.len() && mlo <= mhi <= s@.len() && s@.subrange(nlo as int, nhi as int)
                == name && s@.subrange(mlo as int, mhi as int) == mac,
            None => r is None,
        },
{
    let len = s.len();
    let mut pos: usize = 0;
    let mut id: u64 = 0;
    let mut nlo: usize = 0;
    let mut nhi: usize = 0;
    let mut mlo: usize = 0;
    let mut mhi: usize = 0;
    assert(s@.subrange(0, len as int) =~= s@);
    assert(s@.subrange(0, 0) =~= Seq::<u8>::empty());
    while pos < len
        invariant
            len == s@.len(),
            pos <= len,
            nlo <= nhi <= len,
            mlo <= mhi <= len,
            scan(
                s@.subrange(pos as int, len as int),
                (id as nat, s@.subrange(nlo as int, nhi as int), s@.subrange(mlo as int, mhi as int)),
                device_fields(),
            ) == scan(s@, (0nat, Seq::<u8>::empty(), Seq::<u8>::empty()), device_fields()),
        decreases len - pos,
    {
        let ghost b = s@.subrange(pos as int, len as int);
        match read_field(s, pos) {
            None => return None,
            Some((num, fv, next)) => {
                if num == 1 {
                    match fv {
                        FieldValue::Varint(x) => {
                            id = x;
                        },
                        _ => return None,
                    }
                } else if num == 2 {
                    match fv {
                        FieldValue::Bytes(a, c) => {
                            nlo = a;
                            nhi = c;
                        },
                        _ => return None,
                    }
                } else if num == 3 {
                    match fv {
                        FieldValue::Bytes(a, c) => {
                            mlo = a;
                            mhi = c;
                        },
                        _ => return None,
                    }
                }
                assert(b.subrange(next - pos, b.len() as int) =~= s@.subrange(next as int, len as int));
                pos = next;
            },
        }
    }
    Some((id, nlo, nhi, mlo, mhi))
}

/// Which variant the envelope `s` holds, and the bounds of its body.
fn scan_envelope(s: &[u8]) -> (r: Option<Option<(bool, usize, usize)>>)
    ensures
        match scan(s@, None, envelope_fields()) {
            Some(None) => r matches Some(None),
            Some(Some((request, body))) => r matches Some(Some((q, lo, hi))) && q == request && lo
                <= hi <= s@.len() && s@.subrange(lo as int, hi as int) == body,
            None => r is None,
        },
{
    let len = s.len();
    let mut pos: usize = 0;
    let mut found: Option<(bool, usize, usize)> = None;
    assert(s@.subrange(0, len as int) =~= s@);
    while pos < len
        invariant
            len == s@.len(),
            pos <= len,
            found matches Some((q, lo, hi)) ==> lo <= hi <= len,
            scan(
                s@.subrange(pos as int, len as int),
                match found {
                    Some((q, lo, hi)) => Some((q, s@.subrange(lo as int, hi as int))),
                    None => None,
                },
                envelope_fields(),
            ) == scan(s@, None, envelope_fields()),
        decreases len - pos,
    {
        let ghost b = s@.subrange(pos as int, len as int);
        match read_field(s, pos) {
            None => return None,
            Some((num, fv, next)) => {
                if num == 1 || num == 2 {
                    match fv {
                        FieldValue::Bytes(a, c) => {
                            found = Some((num == 1, a, c));
                        },
                        _ => return None,
                    }
                }
                assert(b.subrange(next - pos, b.len() as int) =~= s@.subrange(next as int, len as int));
                pos = next;
            },
        }
    }
    Some(found)
}

/// Reads an envelope field by field: unknown fields are skipped, an absent
/// field takes its default, and of a field given twice the last one counts.
pub fn decode_message(s: &[u8]) -> (r: Option<WakeMessage>)
    ensures
        match envelope_of(s@) {
            Some(m) => r matches Some(x) && x@ == m,
            None => r is None,
        },
{
    let (request, lo, hi) = match scan_envelope(s) {
        Some(Some(found)) => found,
        _ => return None,
    };
    let wrapper = slice_subrange(s, lo, hi);
    let (rlo, rhi) = match scan_body(wrapper) {
        Some(bounds) => bounds,
        None => return None,
    };
    let record = slice_subrange(wrapper, rlo, rhi);
    if request {
        let (id, nlo, nhi, mlo, mhi) = match scan_device(record) {
            Some(parts) => parts,
            None => return None,
        };
        let name = match read_text(record, nlo, nhi) {
            Some(t) => t,
            None => return None,
        };
        let mac_address = match read_text(record, mlo, mhi) {
            Some(t) => t,
            None => return None,
        };
        let low: u64 = id % 0x1_0000_0000;
        let device_id: i32 = if low >= 0x8000_0000 {
            (low as i64 - 0x1_0000_0000) as i32
        } else {
            low as i32
        };
        Some(WakeMessage::WakeUpRequest(Device { device_id, name, mac_address }))
    } else {
        match scan_flag(record) {
            Some(x) => Some(WakeMessage::WakeUpResponse(x != 0)),
            None => None,
        }
    }
}

proof fn lemma_single_byte_key(b: Seq<u8>, kb: u8)
    requires
        kb < 128,
        b.len() >= 1,
        b[0] == kb,
    ensures
        key_at(b) == Some(kb as nat),
        varint(kb as nat) == seq![kb],
{
    assert(varint(kb as nat) =~= seq![kb]);
    assert(b.subrange(0, 1) =~= seq![kb]);
    assert(varint_at(b, 0, kb as nat));
    let c = choose|key: nat| key <= u64::MAX && varint_at(b, 0, key);
    lemma_varint_unique(b, 0, c, kb as nat);
}

proof fn lemma_varint_value_at(b: Seq<u8>, at: int, v: nat)
    requires
        v <= u64::MAX,
        varint_at(b, at, v),
    ensures
        varint_value_at(b, at) == Some(v),
{
    let c = choose|w: nat| w <= u64::MAX && varint_at(b, at, w);
    lemma_varint_unique(b, at, c, v);
}

/// A length-delimited field followed by `rest` reads as that field.
proof fn lemma_bytes_field(kb: u8, body: Seq<u8>, rest: Seq<u8>)
    requires
        8 <= kb < 128,
        kb % 8 == 2,
        body.len() <= u64::MAX,
    ensures
        field_at(len_field(kb, body) + rest) == Some(
            ((kb / 8) as nat, WireValue::Bytes(body), len_field(kb, body).len()),
        ),
{
    let b = len_field(kb, body) + rest;
    let w = varint(body.len());
    lemma_single_byte_key(b, kb);
    assert(b.subrange(1, 1 + w.len() as int) =~= w);
    lemma_varint_value_at(b, 1, body.len());
    let lo = 1 + w.len();
    assert(b.subrange(lo as int, (lo + body.len()) as int) =~= body);
}

/// A varint field followed by `rest` reads as that field.
proof fn lemma_varint_field(kb: u8, v: nat, rest: Seq<u8>)
    requires
        8 <= kb < 128,
        kb % 8 == 0,
        v <= u64::MAX,
    ensures
        field_at(seq![kb] + varint(v) + rest) == Some(
            ((kb / 8) as nat, WireValue::Varint(v), 1 + varint(v).len()),
        ),
{
    let b = seq![kb] + varint(v) + rest;
    lemma_single_byte_key(b, kb);
    assert(b.subrange(1, 1 + varint(v).len() as int) =~= varint(v));
    lemma_varint_value_at(b, 1, v);
}

/// Scanning a field and then `rest` is the step on that field, then `rest`.
proof fn lemma_scan_field<A>(
    x: Seq<u8>,
    rest: Seq<u8>,
    acc: A,
    step: spec_fn(A, nat, WireValue) -> Option<A>,
    num: nat,
    v: WireValue,
)
    requires
        x.len() >= 1,
        field_at(x + rest) == Some((num, v, x.len())),
    ensures
        scan(x + rest, acc, step) == match step(acc, num, v) {
            Some(next) => scan(rest, next, step),
            None => None,
        },
{
    assert((x + rest).subrange(x.len() as int, (x + rest).len() as int) =~= rest);
}

proof fn lemma_device_round_trip(d: DeviceView)
    requires
        device_bytes(d).len() <= u64::MAX,
    ensures
        device_of(device_bytes(d)) == Some(d),
{
    broadcast use vstd::utf8::encode_utf8_valid_utf8, vstd::utf8::encode_utf8_decode_utf8;

    let bits = int32_bits(d.device_id);
    let name = encode_utf8(d.name);
    let mac = encode_utf8(d.mac_address);
    let f1 = seq![KEY_FIELD_1_VARINT] + varint(bits);
    let f2 = len_field(KEY_FIELD_2_BYTES, name);
    let f3 = len_field(KEY_FIELD_3_BYTES, mac);
    let e = Seq::<u8>::empty();
    assert(device_bytes(d) =~= f1 + (f2 + f3));
    assert(f3 =~= f3 + e);
    lemma_varint_nonempty(bits);
    assert(bits <= u64::MAX);
    lemma_varint_field(KEY_FIELD_1_VARINT, bits, f2 + f3);
    assert(f1 + (f2 + f3) =~= seq![KEY_FIELD_1_VARINT] + varint(bits) + (f2 + f3));
    lemma_scan_field(f1, f2 + f3, (0nat, e, e), device_fields(), 1, WireValue::Varint(bits));
    lemma_bytes_field(KEY_FIELD_2_BYTES, name, f3);
    lemma_scan_field(f2, f3, (bits, e, e), device_fields(), 2, WireValue::Bytes(name));
    lemma_bytes_field(KEY_FIELD_3_BYTES, mac, e);
    lemma_scan_field(f3, e, (bits, name, e), device_fields(), 3, WireValue::Bytes(mac));
    assert(low_i32(bits) == d.device_id);
}

/// Decoding the encoding of an envelope gives that envelope back.
pub proof fn lemma_envelope_round_trip(m: MessageView)
    requires
        message_bytes(m).len() <= u64::MAX,
    ensures
        envelope_of(message_bytes(m)) == Some(m),
{
    let e = Seq::<u8>::empty();
    match m {
        MessageView::WakeUpRequest(d) => {
            let rec = device_bytes(d);
            let wrapper = len_field(KEY_FIELD_1_BYTES, rec);
            let whole = len_field(KEY_FIELD_1_BYTES, wrapper);
            assert(whole =~= whole + e);
            assert(wrapper =~= wrapper + e);
            lemma_bytes_field(KEY_FIELD_1_BYTES, wrapper, e);
            lemma_scan_field(whole, e, None, envelope_fields(), 1, WireValue::Bytes(wrapper));
            lemma_bytes_field(KEY_FIELD_1_BYTES, rec, e);
            lemma_scan_field(wrapper, e, e, body_fields(), 1, WireValue::Bytes(rec));
            lemma_device_round_trip(d);
        },
        MessageView::WakeUpResponse(ok) => {
            let x: nat = if ok { 1 } else { 0 };
            let rec = flag_bytes(ok);
            let wrapper = len_field(KEY_FIELD_1_BYTES, rec);
            let whole = len_field(KEY_FIELD_2_BYTES, wrapper);
            assert(whole =~= whole + e);
            assert(wrapper =~= wrapper + e);
            lemma_bytes_field(KEY_FIELD_2_BYTES, wrapper, e);
            lemma_scan_field(whole, e, None, envelope_fields(), 2, WireValue::Bytes(wrapper));
            lemma_bytes_field(KEY_FIELD_1_BYTES, rec, e);
            lemma_scan_field(wrapper, e, e, body_fields(), 1, WireValue::Bytes(rec));
            assert(varint(x) =~= seq![if ok { 1u8 } else { 0u8 }]);
            assert(rec =~= seq![KEY_FIELD_1_VARINT] + varint(x) + e);
            lemma_varint_field(KEY_FIELD_1_VARINT, x, e);
            lemma_scan_field(rec, e, 0nat, flag_fields(), 1, WireValue::Varint(x));
        },
    }
}

} // verus!
