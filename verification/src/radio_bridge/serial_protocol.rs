//! The framing spoken over the serial line with the radio bridge: the magic
//! prefix `ZPB`, a command identifier, a request identifier and a data length
//! (both big endian), then the data.
use vstd::prelude::*;

verus! {

/// A command as it travels over the serial line.
#[derive(Debug, Clone, PartialEq, Eq)]
pub struct Command {
    pub command_id: u8,
    pub request_id: u16,
    pub data: Vec<u8>,
}

/// A command, with its data as a sequence.
#[verifier::ext_equal]
pub struct CommandView {
    pub command_id: u8,
    pub request_id: u16,
    pub data: Seq<u8>,
}

impl View for Command {
    type V = CommandView;

    open spec fn view(&self) -> CommandView {
        CommandView { command_id: self.command_id, request_id: self.request_id, data: self.data@ }
    }
}

/// How far the decoder got in the current command.
#[derive(Debug, Clone, Copy, PartialEq, Eq, Structural)]
pub enum DecoderState {
    WaitingForMagic,
    WaitingForCommandId,
    WaitingForRequestId { command_id: u8 },
    WaitingForLength { command_id: u8, request_id: u16 },
    WaitingForData { command_id: u8, request_id: u16, length: usize },
}

/// Decodes commands from the bytes read so far, and encodes commands.
pub struct Codec {
    decoder_state: DecoderState,
}

impl View for Codec {
    type V = DecoderState;

    closed spec fn view(&self) -> DecoderState {
        self.decoder_state
    }
}

/// The magic prefix of every command.
pub open spec fn magic_prefix() -> Seq<u8> {
    seq![0x5Au8, 0x50u8, 0x42u8]
}

/// Whether `needle` occurs in `haystack` at index `i`.
pub open spec fn occurs_at(haystack: Seq<u8>, needle: Seq<u8>, i: int) -> bool {
    0 <= i && i + needle.len() <= haystack.len() && haystack.subrange(i, i + needle.len()) == needle
}

/// Whether index `i` is the first occurrence of `needle` in `haystack`.
pub open spec fn first_occurrence(haystack: Seq<u8>, needle: Seq<u8>, i: int) -> bool {
    occurs_at(haystack, needle, i) && forall|j: int| 0 <= j < i ==> !occurs_at(haystack, needle, j)
}

/// The first index at which `needle` occurs in `haystack`, if it does.
pub open spec fn find_first(haystack: Seq<u8>, needle: Seq<u8>) -> Option<int> {
    if exists|i: int| occurs_at(haystack, needle, i) {
        Some(choose|i: int| first_occurrence(haystack, needle, i))
    } else {
        None
    }
}

/// The bytes of a big endian `u16`.
pub open spec fn be16(x: u16) -> Seq<u8> {
    seq![(x >> 8u16) as u8, (x & 0xFF) as u8]
}

/// The big endian `u16` at the front of `data` (at least two bytes).
pub open spec fn read_be16(data: Seq<u8>) -> u16 {
    (((data[0] as u16) << 8u16) | (data[1] as u16)) as u16
}

/// Decoding from `state` with `buf` read: the state and bytes left after, and
/// the command decoded, if one was completed. Decoding stops after one
/// command, when the bytes run out, or, while looking for the prefix without
/// finding it, keeping the last three bytes.
pub open spec fn decode_spec(state: DecoderState, buf: Seq<u8>) -> (DecoderState, Seq<u8>, Option<CommandView>)
    decreases buf.len(),
{
    if buf.len() == 0 {
        (state, buf, None)
    } else {
        match state {
            DecoderState::WaitingForMagic => match find_first(buf, magic_prefix()) {
                Some(offset) => if 0 <= offset && offset + 3 <= buf.len() {
                    decode_spec(DecoderState::WaitingForCommandId, buf.skip(offset + 3))
                } else {
                    (state, buf, None)
                },
                None => (DecoderState::WaitingForMagic, buf.skip(buf.len() - 3), None),
            },
            DecoderState::WaitingForCommandId => decode_spec(
                DecoderState::WaitingForRequestId { command_id: buf[0] },
                buf.skip(1),
            ),
            DecoderState::WaitingForRequestId { command_id } => if buf.len() < 2 {
                (state, buf, None)
            } else {
                decode_spec(DecoderState::WaitingForLength { command_id, request_id: read_be16(buf) }, buf.skip(2))
            },
            DecoderState::WaitingForLength { command_id, request_id } => if buf.len() < 2 {
                (state, buf, None)
            } else {
                decode_spec(
                    DecoderState::WaitingForData { command_id, request_id, length: read_be16(buf) as usize },
                    buf.skip(2),
                )
            },
            DecoderState::WaitingForData { command_id, request_id, length } => if buf.len() < length {
                (state, buf, None)
            } else {
                (
                    DecoderState::WaitingForMagic,
                    buf.skip(length as int),
                    Some(CommandView { command_id, request_id, data: buf.take(length as int) }),
                )
            },
        }
    }
}

/// Whether decoding from `state` with `buf` read can go ahead: while looking
/// for the prefix, one or two bytes are not enough (the decoder would try to
/// keep more bytes than there are).
pub open spec fn can_decode(state: DecoderState, buf: Seq<u8>) -> bool {
    !(state is WaitingForMagic && 0 < buf.len() < 3)
}

/// How many data bytes a command carries on the line: at most 0xFFFF.
pub open spec fn sent_length(c: CommandView) -> nat {
    if c.data.len() > 0xFFFF {
        0xFFFF
    } else {
        c.data.len()
    }
}

/// The bytes of an encoded command; data beyond 0xFFFF bytes is cut off.
pub open spec fn encode_spec(c: CommandView) -> Seq<u8> {
    magic_prefix() + seq![c.command_id] + be16(c.request_id) + be16(sent_length(c) as u16) + c.data.take(
        sent_length(c) as int,
    )
}

proof fn lemma_be16_value(x: u16)
    by (bit_vector)
    ensures
        ((((x >> 8u16) as u8) as u16) << 8u16) | (((x & 0xFF) as u8) as u16) == x,
{
}

/// Reading back a big endian `u16` gives it back, whatever follows.
proof fn lemma_be16_roundtrip(x: u16, rest: Seq<u8>)
    ensures
        be16(x).len() == 2,
        read_be16(be16(x) + rest) == x,
        (be16(x) + rest).skip(2) == rest,
{
    lemma_be16_value(x);
    let s = be16(x) + rest;
    assert(s[0] == (x >> 8u16) as u8);
    assert(s[1] == (x & 0xFF) as u8);
    assert(s.skip(2) =~= rest);
}

/// Decoding an encoded command gives it back and leaves what followed it.
/// A command with no data needs at least one byte after it: the decoder
/// only completes a command while it has bytes to look at.
pub proof fn lemma_encode_decode(c: CommandView, rest: Seq<u8>)
    requires
        c.data.len() <= 0xFFFF,
        c.data.len() > 0 || rest.len() > 0,
    ensures
        decode_spec(DecoderState::WaitingForMagic, encode_spec(c) + rest) == (
        DecoderState::WaitingForMagic,
        rest,
        Some(c),
        ),
{
    let len = c.data.len() as u16;
    let buf = encode_spec(c) + rest;
    let d4 = c.data + rest;
    let d3 = be16(len) + d4;
    let d2 = be16(c.request_id) + d3;
    let d1 = seq![c.command_id] + d2;
    assert(c.data.take(c.data.len() as int) =~= c.data);
    assert(buf =~= magic_prefix() + d1);
    assert(occurs_at(buf, magic_prefix(), 0)) by {
        assert(buf.subrange(0, 3) =~= magic_prefix());
    }
    assert(first_occurrence(buf, magic_prefix(), 0));
    let k = choose|i: int| first_occurrence(buf, magic_prefix(), i);
    assert(first_occurrence(buf, magic_prefix(), k));
    assert(k == 0) by {
        if k > 0 {
            assert(!occurs_at(buf, magic_prefix(), 0));
        }
    }
    assert(find_first(buf, magic_prefix()) == Some(0int));
    assert(buf.skip(3) =~= d1);
    assert(d1[0] == c.command_id);
    assert(d1.skip(1) =~= d2);
    lemma_be16_roundtrip(c.request_id, d3);
    lemma_be16_roundtrip(len, d4);
    assert(d4.take(c.data.len() as int) =~= c.data);
    assert(d4.skip(c.data.len() as int) =~= rest);
    let data_state = DecoderState::WaitingForData { command_id: c.command_id, request_id: c.request_id, length: len as usize };
    assert(decode_spec(data_state, d4) == (DecoderState::WaitingForMagic, rest, Some(c)));
    let length_state = DecoderState::WaitingForLength { command_id: c.command_id, request_id: c.request_id };
    assert(decode_spec(length_state, d3) == decode_spec(data_state, d4));
    let request_state = DecoderState::WaitingForRequestId { command_id: c.command_id };
    assert(decode_spec(request_state, d2) == decode_spec(length_state, d3));
    assert(decode_spec(DecoderState::WaitingForCommandId, d1) == decode_spec(request_state, d2));
}

/// An occurrence of `needle` implies a first one.
proof fn lemma_first_exists(haystack: Seq<u8>, needle: Seq<u8>, i: int)
    requires
        occurs_at(haystack, needle, i),
    ensures
        exists|j: int| first_occurrence(haystack, needle, j),
    decreases i,
{
    if exists|j: int| 0 <= j < i && occurs_at(haystack, needle, j) {
        let j = choose|j: int| 0 <= j < i && occurs_at(haystack, needle, j);
        lemma_first_exists(haystack, needle, j);
    } else {
        assert(first_occurrence(haystack, needle, i));
    }
}

/// The first occurrence is what `find_first` gives.
proof fn lemma_find_first_is(haystack: Seq<u8>, needle: Seq<u8>, i: int)
    requires
        first_occurrence(haystack, needle, i),
    ensures
        find_first(haystack, needle) == Some(i),
{
    let k = choose|k: int| first_occurrence(haystack, needle, k);
    assert(first_occurrence(haystack, needle, k));
    if k < i {
        assert(!occurs_at(haystack, needle, k));
    } else if k > i {
        assert(!occurs_at(haystack, needle, i));
    }
}

/// What `find_first` gives is the first occurrence.
proof fn lemma_find_first_some(haystack: Seq<u8>, needle: Seq<u8>)
    requires
        find_first(haystack, needle) is Some,
    ensures
        first_occurrence(haystack, needle, find_first(haystack, needle)->0),
{
    let i = choose|i: int| occurs_at(haystack, needle, i);
    lemma_first_exists(haystack, needle, i);
}

/// An occurrence that lies within `a` is one in `a + b`, and back.
proof fn lemma_occurs_in_prefix(a: Seq<u8>, b: Seq<u8>, j: int)
    requires
        0 <= j,
        j + 3 <= a.len(),
    ensures
        occurs_at(a + b, magic_prefix(), j) == occurs_at(a, magic_prefix(), j),
{
    assert((a + b).subrange(j, j + 3) =~= a.subrange(j, j + 3));
}

/// What decoding `a` leaves, then decoding on with `b` read after it: a
/// command completed stops the decoding, with `b` left after the rest.
pub open spec fn decode_on(first: (DecoderState, Seq<u8>, Option<CommandView>), b: Seq<u8>) -> (
    DecoderState,
    Seq<u8>,
    Option<CommandView>,
) {
    match first.2 {
        Some(c) => (first.0, first.1 + b, Some(c)),
        None => decode_spec(first.0, first.1 + b),
    }
}

/// Decoding does not depend on how the input arrives: decoding `a + b` at
/// once gives what decoding `a` and then going on with the bytes it left and
/// `b` gives.
pub proof fn lemma_decode_chunks(state: DecoderState, a: Seq<u8>, b: Seq<u8>)
    requires
        can_decode(state, a),
    ensures
        decode_spec(state, a + b) == decode_on(decode_spec(state, a), b),
    decreases a.len(),
{
    let ab = a + b;
    if a.len() == 0 {
        assert(ab =~= b);
        assert(a + b =~= b);
    } else {
        match state {
            DecoderState::WaitingForMagic => {
                let m = magic_prefix();
                let n = a.len();
                match find_first(a, m) {
                    Some(off) => {
                        lemma_find_first_some(a, m);
                        assert forall|j: int| 0 <= j < off implies !occurs_at(ab, m, j) by {
                            lemma_occurs_in_prefix(a, b, j);
                        }
                        lemma_occurs_in_prefix(a, b, off);
                        lemma_find_first_is(ab, m, off);
                        assert(ab.skip(off + 3) =~= a.skip(off + 3) + b);
                        lemma_decode_chunks(DecoderState::WaitingForCommandId, a.skip(off + 3), b);
                    },
                    None => {
                        let t = a.skip(n - 3) + b;
                        assert forall|j: int| 0 <= j && j + 3 <= n implies !occurs_at(ab, m, j) by {
                            lemma_occurs_in_prefix(a, b, j);
                            if occurs_at(a, m, j) {
                                lemma_first_exists(a, m, j);
                            }
                        }
                        assert forall|j: int| n - 3 <= j implies occurs_at(ab, m, j) == occurs_at(t, m, j - (n - 3)) by {
                            if 0 <= j && j + 3 <= ab.len() {
                                assert(ab.subrange(j, j + 3) =~= t.subrange(j - (n - 3), j - (n - 3) + 3));
                            }
                        }
                        if exists|i: int| occurs_at(t, m, i) {
                            let i0 = choose|i: int| occurs_at(t, m, i);
                            lemma_first_exists(t, m, i0);
                            let i1 = choose|i: int| first_occurrence(t, m, i);
                            lemma_find_first_is(t, m, i1);
                            let j0 = i1 + (n - 3);
                            assert forall|j: int| 0 <= j < j0 implies !occurs_at(ab, m, j) by {
                                if j + 3 > n {
                                    assert(!occurs_at(t, m, j - (n - 3)));
                                }
                            }
                            assert(occurs_at(ab, m, j0));
                            lemma_find_first_is(ab, m, j0);
                            assert(ab.skip(j0 + 3) =~= t.skip(i1 + 3));
                        } else {
                            assert forall|j: int| !occurs_at(ab, m, j) by {
                                if 0 <= j && j + 3 <= ab.len() && j >= n - 3 {
                                    assert(!occurs_at(t, m, j - (n - 3)));
                                }
                            }
                            assert(ab.skip(ab.len() - 3) =~= t.skip(t.len() - 3));
                        }
                    },
                }
            },
            DecoderState::WaitingForCommandId => {
                assert(ab[0] == a[0]);
                assert(ab.skip(1) =~= a.skip(1) + b);
                lemma_decode_chunks(DecoderState::WaitingForRequestId { command_id: a[0] }, a.skip(1), b);
            },
            DecoderState::WaitingForRequestId { command_id } => {
                if a.len() >= 2 {
                    assert(ab[0] == a[0] && ab[1] == a[1]);
                    assert(ab.skip(2) =~= a.skip(2) + b);
                    lemma_decode_chunks(
                        DecoderState::WaitingForLength { command_id, request_id: read_be16(a) },
                        a.skip(2),
                        b,
                    );
                }
            },
            DecoderState::WaitingForLength { command_id, request_id } => {
                if a.len() >= 2 {
                    assert(ab[0] == a[0] && ab[1] == a[1]);
                    assert(ab.skip(2) =~= a.skip(2) + b);
                    lemma_decode_chunks(
                        DecoderState::WaitingForData { command_id, request_id, length: read_be16(a) as usize },
                        a.skip(2),
                        b,
                    );
                }
            },
            DecoderState::WaitingForData { command_id, request_id, length } => {
                if a.len() >= length {
                    assert(ab.skip(length as int) =~= a.skip(length as int) + b);
                    assert(ab.take(length as int) =~= a.take(length as int));
                }
            },
        }
    }
}

/// The first index at which `needle` occurs in `haystack`, if it does; an
/// empty needle is not looked for.
pub fn find_subsequence(haystack: &[u8], needle: &[u8]) -> (r: Option<usize>)
    requires
        needle@.len() > 0,
    ensures
        match r {
            Some(i) => first_occurrence(haystack@, needle@, i as int),
            None => forall|i: int| !occurs_at(haystack@, needle@, i),
        },
        r matches Some(i) ==> find_first(haystack@, needle@) == Some(i as int),
        r is None ==> find_first(haystack@, needle@) is None,
{
    let n = needle.len();
    if haystack.len() < n {
        return None;
    }
    let last = haystack.len() - n;
    let mut i: usize = 0;
    while i <= last
        invariant
            n == needle@.len(),
            n > 0,
            n <= haystack@.len(),
            haystack@.len() <= usize::MAX,
            last == haystack@.len() - n,
            i <= last + 1,
            forall|j: int| 0 <= j < i ==> !occurs_at(haystack@, needle@, j),
        decreases last + 1 - i,
    {
        let mut k: usize = 0;
        let mut matched = true;
        while k < n
            invariant
                n == needle@.len(),
                i + n <= haystack@.len(),
                haystack@.len() <= usize::MAX,
                k <= n,
                matched == (forall|m: int| 0 <= m < k ==> haystack@[i + m] == needle@[m]),
            decreases n - k,
        {
            if haystack[i + k] != needle[k] {
                matched = false;
            }
            k = k + 1;
        }
        if matched {
            proof {
                assert(haystack@.subrange(i as int, i + n) =~= needle@);
                assert(first_occurrence(haystack@, needle@, i as int));
                let c = choose|j: int| first_occurrence(haystack@, needle@, j);
                assert(first_occurrence(haystack@, needle@, c));
                if c < i {
                } else if c > i {
                }
            }
            return Some(i);
        }
        proof {
            assert(!occurs_at(haystack@, needle@, i as int)) by {
                if occurs_at(haystack@, needle@, i as int) {
                    assert forall|m: int| 0 <= m < n implies haystack@[i + m] == needle@[m] by {
                        assert(haystack@.subrange(i as int, i + n)[m] == haystack@[i + m]);
                    }
                }
            }
        }
        i = i + 1;
    }
    None
}

/// Drops the first `n` bytes of `buf`.
fn advance(buf: &mut Vec<u8>, n: usize)
    requires
        n <= old(buf)@.len(),
    ensures
        final(buf)@ == old(buf)@.skip(n as int),
{
    let tail = buf.split_off(n);
    *buf = tail;
    assert(buf@ =~= old(buf)@.skip(n as int));
}

/// Splits off and returns the first `n` bytes of `buf`.
fn split_to(buf: &mut Vec<u8>, n: usize) -> (r: Vec<u8>)
    requires
        n <= old(buf)@.len(),
    ensures
        r@ == old(buf)@.take(n as int),
        final(buf)@ == old(buf)@.skip(n as int),
{
    let mut tail = buf.split_off(n);
    core::mem::swap(buf, &mut tail);
    assert(buf@ =~= old(buf)@.skip(n as int));
    assert(tail@ =~= old(buf)@.take(n as int));
    tail
}

/// The big endian `u16` at the front of `buf`.
fn get_be16(buf: &[u8]) -> (r: u16)
    requires
        buf@.len() >= 2,
    ensures
        r == read_be16(buf@),
{
    ((buf[0] as u16) << 8u16) | (buf[1] as u16)
}

/// Appends a big endian `u16`.
fn put_be16(dst: &mut Vec<u8>, x: u16)
    ensures
        final(dst)@ == old(dst)@ + be16(x),
{
    dst.push((x >> 8u16) as u8);
    dst.push((x & 0xFF) as u8);
    assert(final(dst)@ =~= old(dst)@ + be16(x));
}

impl Codec {
    /// A codec that waits for the magic prefix.
    pub fn new() -> (r: Codec)
        ensures
            r@ == DecoderState::WaitingForMagic,
    {
        Codec { decoder_state: DecoderState::WaitingForMagic }
    }

    /// Decodes at most one command from the front of `src`, consuming the
    /// bytes it used (and, while looking for the prefix, the bytes that
    /// cannot start it).
    pub fn decode(&mut self, src: &mut Vec<u8>) -> (r: Option<Command>)
        requires
            can_decode(old(self)@, old(src)@),
        ensures
            ({
                let (state, rest, command) = decode_spec(old(self)@, old(src)@);
                &&& final(self)@ == state
                &&& final(src)@ == rest
                &&& match command {
                    Some(c) => r matches Some(d) && d@ == c,
                    None => r is None,
                }
            }),
    {
        let ghost target = decode_spec(self.decoder_state, src@);
        let ghost start_state = self.decoder_state;
        let ghost start = src@;
        let mut keep_going = true;
        let mut retval: Option<Command> = None;
        while retval.is_none() && keep_going && src.len() > 0
            invariant
                start_state == old(self)@,
                start == old(src)@,
                target == decode_spec(start_state, start),
                can_decode(start_state, start),
                self.decoder_state is WaitingForMagic && retval is None && keep_going ==> src@ == start && start_state
                    is WaitingForMagic,
                retval is None && keep_going ==> decode_spec(self.decoder_state, src@) == target,
                !(retval is None && keep_going) ==> {
                    &&& self.decoder_state == target.0
                    &&& src@ == target.1
                    &&& match target.2 {
                        Some(c) => retval matches Some(d) && d@ == c,
                        None => retval is None,
                    }
                },
            decreases src@.len(), if keep_going { 1int } else { 0int }, if retval is None { 1int } else { 0int },
        {
            match self.decoder_state {
                DecoderState::WaitingForMagic => {
                    let magic: [u8; 3] = [0x5A, 0x50, 0x42];
                    assert(magic@ =~= magic_prefix());
                    match find_subsequence(src.as_slice(), &magic) {
                        Some(magic_offset) => {
                            advance(src, magic_offset + 3);
                            self.decoder_state = DecoderState::WaitingForCommandId;
                        },
                        None => {
                            let n = src.len() - 3;
                            advance(src, n);
                            keep_going = false;
                            self.decoder_state = DecoderState::WaitingForMagic;
                        },
                    }
                },
                DecoderState::WaitingForCommandId => {
                    let command_id = src[0];
                    advance(src, 1);
                    self.decoder_state = DecoderState::WaitingForRequestId { command_id };
                },
                DecoderState::WaitingForRequestId { command_id } => {
                    if src.len() < 2 {
                        keep_going = false;
                    } else {
                        let request_id = get_be16(src.as_slice());
                        advance(src, 2);
                        self.decoder_state = DecoderState::WaitingForLength { command_id, request_id };
                    }
                },
                DecoderState::WaitingForLength { command_id, request_id } => {
                    if src.len() < 2 {
                        keep_going = false;
                    } else {
                        let length = get_be16(src.as_slice()) as usize;
                        advance(src, 2);
                        self.decoder_state = DecoderState::WaitingForData { command_id, request_id, length };
                    }
                },
                DecoderState::WaitingForData { command_id, request_id, length } => {
                    if src.len() < length {
                        keep_going = false;
                    } else {
                        let data = split_to(src, length);
                        retval = Some(Command { command_id, request_id, data });
                        self.decoder_state = DecoderState::WaitingForMagic;
                    }
                },
            }
        }
        retval
    }

    /// Appends the encoding of `item` to `dst`; data beyond 0xFFFF bytes is
    /// not sent.
    pub fn encode(&mut self, item: Command, dst: &mut Vec<u8>)
        ensures
            final(self)@ == old(self)@,
            final(dst)@ == old(dst)@ + encode_spec(item@),
    {
        dst.push(0x5Au8);
        dst.push(0x50u8);
        dst.push(0x42u8);
        dst.push(item.command_id);
        put_be16(dst, item.request_id);
        let length: u16 = if item.data.len() > 0xFFFF {
            0xFFFF
        } else {
            item.data.len() as u16
        };
        put_be16(dst, length);
        let (head, _) = item.data.as_slice().split_at(length as usize);
        dst.extend_from_slice(head);
        proof {
            assert(head@ =~= item.data@.take(length as int));
            assert(final(dst)@ =~= old(dst)@ + encode_spec(item@));
        }
    }
}

} // verus!
