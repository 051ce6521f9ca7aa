//! A device path held in a buffer of its own, and the operations on it.
//!
//! Every read is checked against the buffer's length, so a buffer that holds
//! no well-formed path is told apart and never walked beyond its end.

use crate::protocol::chain::{
    chain_from, duplicate_of, end_header, joined, lemma_reaches, lemma_reaches_agree,
    lemma_reaches_chain, lemma_reaches_step, lemma_terminator, length_at, node_at, offsets_from,
    reaches, size, terminator, terminator_at, terminator_from, well_formed, with_end_at,
    with_node,
};
use crate::protocol::device_path::{DevicePathProtocol, END_ENTIRE_PATH, END_TYPE, HEADER_SIZE};
use vstd::prelude::*;

verus! {

/// The bytes of a single node with the given header fields and a payload of
/// zeros.
pub open spec fn blank_node(node_type: u8, sub_type: u8, length: int) -> Seq<u8> {
    seq![node_type, sub_type, (length % 256) as u8, (length / 256) as u8] + Seq::new(
        (length - 4) as nat,
        |i: int| 0u8,
    )
}

/// The offsets in `v`, as mathematical integers.
pub open spec fn as_ints(v: Seq<usize>) -> Seq<int> {
    Seq::new(v.len(), |i: int| v[i] as int)
}

/// The reader shows the memory: whatever it gives for a range that lies in
/// the memory are the bytes of that range.
pub open spec fn shows<F: Fn(usize, usize) -> Vec<u8>>(read: F, memory: Seq<u8>) -> bool {
    forall|at: usize, count: usize, bytes: Vec<u8>| #[trigger]
        call_ensures(read, (at, count), bytes) && at + count <= memory.len() ==> bytes@
            == memory.subrange(at as int, at + count)
}

/// The walk over the memory behind the reader can come to the offset `at`:
/// it starts at offset zero, and from an offset it comes to, where the reader
/// gives a header and then a whole node of the header's length that does not
/// end the path, it comes to the offset behind that node.
pub open spec fn walked<F: Fn(usize, usize) -> Vec<u8>>(read: F, at: usize) -> bool
    decreases at,
{
    at == 0 || exists|from: usize, len: usize, header: Vec<u8>, node: Vec<u8>|
        {
            &&& from + len == at
            &&& len >= HEADER_SIZE
            &&& walked(read, from)
            &&& #[trigger] call_ensures(read, (from, HEADER_SIZE), header)
            &&& header@.len() == HEADER_SIZE
            &&& length_at(header@, 0) == len
            &&& #[trigger] call_ensures(read, (from, len), node)
            &&& node@.len() == len
            &&& length_at(node@, 0) == len
            &&& !terminator_at(node@, 0)
        }
}

/// The walk over a memory that holds a well-formed path comes only to
/// offsets of nodes of the path, so that whatever it reads lies in the path.
pub proof fn lemma_walked<F: Fn(usize, usize) -> Vec<u8>>(read: F, memory: Seq<u8>, at: usize)
    requires
        shows(read, memory),
        well_formed(memory),
        walked(read, at),
    ensures
        reaches(memory, 0, at as int),
        chain_from(memory, at as int),
        at + length_at(memory, at as int) <= size(memory),
    decreases at,
{
    if at > 0 {
        let (from, len, header, node) = choose|
            from: usize,
            len: usize,
            header: Vec<u8>,
            node: Vec<u8>,
        |
            {
                &&& from + len == at
                &&& len >= HEADER_SIZE
                &&& walked(read, from)
                &&& #[trigger] call_ensures(read, (from, HEADER_SIZE), header)
                &&& header@.len() == HEADER_SIZE
                &&& length_at(header@, 0) == len
                &&& #[trigger] call_ensures(read, (from, len), node)
                &&& node@.len() == len
                &&& length_at(node@, 0) == len
                &&& !terminator_at(node@, 0)
            };
        lemma_walked(read, memory, from);
        assert(header@ == memory.subrange(from as int, from + 4));
        assert(header@[2] == memory[from + 2]);
        assert(header@[3] == memory[from + 3]);
        assert(length_at(memory, from as int) == len);
        lemma_terminator(memory, from as int);
        assert(node@ == memory.subrange(from as int, from + len));
        assert(node@[0] == memory[from as int]);
        assert(node@[1] == memory[from + 1]);
        assert(!terminator_at(memory, from as int));
        lemma_reaches_step(memory, 0, from as int);
    }
    lemma_reaches(memory, 0, at as int);
    lemma_terminator(memory, at as int);
}

/// A buffer that holds device-path nodes from its first byte on.
#[derive(Debug)]
pub struct DevicePath {
    bytes: Vec<u8>,
}

impl View for DevicePath {
    type V = Seq<u8>;

    closed spec fn view(&self) -> Seq<u8> {
        self.bytes@
    }
}

/// The bytes of `src` from `from` up to `to`, put behind those of `dst`.
fn extend_from_range(dst: &mut Vec<u8>, src: &Vec<u8>, from: usize, to: usize)
    requires
        from <= to <= src.len(),
    ensures
        final(dst)@ == old(dst)@ + src@.subrange(from as int, to as int),
{
    let mut i: usize = from;
    while i < to
        invariant
            from <= i <= to <= src.len(),
            dst@ == old(dst)@ + src@.subrange(from as int, i as int),
        decreases to - i,
    {
        dst.push(src[i]);
        i += 1;
        assert(dst@ =~= old(dst)@ + src@.subrange(from as int, i as int));
    }
    assert(dst@ =~= old(dst)@ + src@.subrange(from as int, to as int));
}

impl DevicePath {
    /// Takes over a buffer as it is; nothing is asked of what it holds.
    pub fn from_bytes(bytes: Vec<u8>) -> (p: DevicePath)
        ensures
            p@ == bytes@,
    {
        DevicePath { bytes }
    }

    /// Gives the buffer back.
    pub fn into_bytes(self) -> (bytes: Vec<u8>)
        ensures
            bytes@ == self@,
    {
        self.bytes
    }

    /// The buffer, for reading.
    pub fn as_bytes(&self) -> (bytes: &[u8])
        ensures
            bytes@ == self@,
    {
        self.bytes.as_slice()
    }

    /// The path without nodes: nothing but the node that ends it.
    pub fn end() -> (p: DevicePath)
        ensures
            p@ == end_header(),
            well_formed(p@),
            terminator(p@) == 0,
    {
        let mut bytes: Vec<u8> = Vec::new();
        bytes.push(END_TYPE);
        bytes.push(END_ENTIRE_PATH);
        bytes.push(4);
        bytes.push(0);
        assert(bytes@ =~= end_header());
        DevicePath { bytes }
    }

    /// Copies a device path out of a memory whose extent is not known, such
    /// as the firmware's. The memory is read through `read`, which gives
    /// `count` bytes from an offset `at`.
    ///
    /// The walk reads each node's header, then the node, and stops behind the
    /// node that ends the whole path: the path itself tells how far to read,
    /// and nothing behind it is read. So the reader need only be callable for
    /// a header at an offset that the walk comes to, and for the node that
    /// the header there tells of.
    ///
    /// The walk gives up at a length field smaller than a header, where an
    /// offset would pass the largest address, and where the reader gives
    /// another number of bytes or other bytes than it was asked for.
    pub fn capture<F: Fn(usize, usize) -> Vec<u8>>(read: F) -> (r: Option<DevicePath>)
        requires
            forall|at: usize| walked(read, at) ==> #[trigger] call_requires(read, (at, HEADER_SIZE)),
            forall|at: usize, len: usize, header: Vec<u8>|
                walked(read, at) && #[trigger] call_ensures(read, (at, HEADER_SIZE), header)
                    && header@.len() == HEADER_SIZE && length_at(header@, 0) == len && len
                    >= HEADER_SIZE && at + len <= usize::MAX ==> #[trigger] call_requires(
                    read,
                    (at, len),
                ),
        ensures
            r matches Some(p) ==> well_formed(p@) && p@.len() == size(p@),
            forall|memory: Seq<u8>| #[trigger]
                shows(read, memory) && well_formed(memory) && size(memory) <= usize::MAX ==> (
                r matches Some(p) && p@ == duplicate_of(memory)),
    {
        let mut bytes: Vec<u8> = Vec::new();
        let mut at: usize = 0;
        loop
            invariant
                forall|at: usize|
                    walked(read, at) ==> #[trigger] call_requires(read, (at, HEADER_SIZE)),
                forall|at: usize, len: usize, header: Vec<u8>|
                    walked(read, at) && #[trigger] call_ensures(read, (at, HEADER_SIZE), header)
                        && header@.len() == HEADER_SIZE && length_at(header@, 0) == len && len
                        >= HEADER_SIZE && at + len <= usize::MAX ==> #[trigger] call_requires(
                        read,
                        (at, len),
                    ),
                walked(read, at),
                bytes@.len() == at,
                reaches(bytes@, 0, at as int),
                forall|memory: Seq<u8>| #[trigger]
                    shows(read, memory) && well_formed(memory) && size(memory) <= usize::MAX ==> {
                        &&& bytes@ == memory.subrange(0, at as int)
                        &&& reaches(memory, 0, at as int)
                    },
            decreases usize::MAX - at,
        {
            let header = read(at, HEADER_SIZE);
            let ghost before = bytes@;
            proof {
                assert forall|memory: Seq<u8>| #[trigger]
                    shows(read, memory) && well_formed(memory) && size(memory)
                        <= usize::MAX implies {
                    &&& header@ == memory.subrange(at as int, at + 4)
                    &&& chain_from(memory, at as int)
                    &&& terminator_from(memory, at as int) == terminator(memory)
                    &&& at + length_at(memory, at as int) <= usize::MAX
                } by {
                    lemma_reaches(memory, 0, at as int);
                    lemma_terminator(memory, at as int);
                }
            }
            if header.len() != HEADER_SIZE {
                return None;
            }
            let len: usize = header[2] as usize + 256 * (header[3] as usize);
            if len < HEADER_SIZE || len > usize::MAX - at {
                proof {
                    assert forall|memory: Seq<u8>| #[trigger]
                        shows(read, memory) && well_formed(memory) && size(memory)
                            <= usize::MAX implies false by {
                        assert(header@[2] == memory[at + 2]);
                        assert(header@[3] == memory[at + 3]);
                    }
                }
                return None;
            }
            let node = read(at, len);
            proof {
                assert forall|memory: Seq<u8>| #[trigger]
                    shows(read, memory) && well_formed(memory) && size(memory)
                        <= usize::MAX implies {
                    &&& len == length_at(memory, at as int)
                    &&& node@ == memory.subrange(at as int, at + len)
                } by {
                    assert(header@[2] == memory[at + 2]);
                    assert(header@[3] == memory[at + 3]);
                }
            }
            if node.len() != len {
                return None;
            }
            let own: usize = node[2] as usize + 256 * (node[3] as usize);
            if own != len {
                proof {
                    assert forall|memory: Seq<u8>| #[trigger]
                        shows(read, memory) && well_formed(memory) && size(memory)
                            <= usize::MAX implies false by {
                        assert(node@[2] == memory[at + 2]);
                        assert(node@[3] == memory[at + 3]);
                    }
                }
                return None;
            }
            let ends = node[0] == END_TYPE && node[1] == END_ENTIRE_PATH;
            extend_from_range(&mut bytes, &node, 0, len);
            proof {
                assert(node@.subrange(0, len as int) =~= node@);
                assert(bytes@[at + 2] == node@[2]);
                assert(bytes@[at + 3] == node@[3]);
                assert(bytes@[at as int] == node@[0]);
                assert(bytes@[at + 1] == node@[1]);
                assert(node_at(bytes@, at as int));
                lemma_reaches_agree(before, 0, at as int, bytes@);
                assert forall|memory: Seq<u8>| #[trigger]
                    shows(read, memory) && well_formed(memory) && size(memory)
                        <= usize::MAX implies {
                    &&& bytes@ == memory.subrange(0, at + len)
                    &&& ends == terminator_at(memory, at as int)
                } by {
                    assert(node@[0] == memory[at as int]);
                    assert(node@[1] == memory[at + 1]);
                    assert(bytes@ =~= memory.subrange(0, at + len));
                }
            }
            if ends {
                proof {
                    lemma_reaches_chain(bytes@, 0, at as int);
                    assert forall|memory: Seq<u8>| #[trigger]
                        shows(read, memory) && well_formed(memory) && size(memory)
                            <= usize::MAX implies bytes@ == duplicate_of(memory) by {
                        lemma_reaches(memory, 0, at as int);
                    }
                }
                return Some(DevicePath { bytes });
            }
            proof {
                assert(walked(read, (at + len) as usize)) by {
                    assert(call_ensures(read, (at, HEADER_SIZE), header));
                    assert(call_ensures(read, (at, len), node));
                    assert(length_at(header@, 0) == len);
                    assert(length_at(node@, 0) == len);
                    assert(!terminator_at(node@, 0));
                }
                lemma_reaches_step(bytes@, 0, at as int);
                assert forall|memory: Seq<u8>| #[trigger]
                    shows(read, memory) && well_formed(memory) && size(memory)
                        <= usize::MAX implies reaches(memory, 0, at + len) by {
                    lemma_reaches(memory, 0, at as int);
                    lemma_reaches_step(memory, 0, at as int);
                }
            }
            at = at + len;
        }
    }

    /// Copies a single node out of a memory whose extent is not known. The
    /// memory is read through `read`, which gives `count` bytes from an
    /// offset `at`; the node is read from offset zero.
    ///
    /// The header is read, then the node of the header's length, and nothing
    /// behind it: the reader need only be callable for these two. The reading
    /// gives up at a length field smaller than a header, and where the
    /// reader gives another number of bytes or other bytes than it was asked
    /// for.
    pub fn capture_node<F: Fn(usize, usize) -> Vec<u8>>(read: F) -> (r: Option<DevicePath>)
        requires
            call_requires(read, (0usize, HEADER_SIZE)),
            forall|len: usize, header: Vec<u8>| #[trigger]
                call_ensures(read, (0usize, HEADER_SIZE), header) && header@.len() == HEADER_SIZE
                    && length_at(header@, 0) == len && len >= HEADER_SIZE ==> #[trigger] call_requires(
                    read,
                    (0usize, len),
                ),
        ensures
            r matches Some(p) ==> node_at(p@, 0) && p@.len() == length_at(p@, 0),
            forall|memory: Seq<u8>| #[trigger]
                shows(read, memory) && node_at(memory, 0) ==> (r matches Some(p) && p@
                    == memory.subrange(0, length_at(memory, 0))),
    {
        let header = read(0, HEADER_SIZE);
        if header.len() != HEADER_SIZE {
            return None;
        }
        let len: usize = header[2] as usize + 256 * (header[3] as usize);
        proof {
            assert forall|memory: Seq<u8>| #[trigger]
                shows(read, memory) && node_at(memory, 0) implies len == length_at(memory, 0) by {
                assert(header@[2] == memory[2]);
                assert(header@[3] == memory[3]);
            }
        }
        if len < HEADER_SIZE {
            return None;
        }
        let node = read(0, len);
        if node.len() != len {
            return None;
        }
        let own: usize = node[2] as usize + 256 * (node[3] as usize);
        if own != len {
            proof {
                assert forall|memory: Seq<u8>| #[trigger]
                    shows(read, memory) && node_at(memory, 0) implies false by {
                    assert(node@[2] == memory[2]);
                    assert(node@[3] == memory[3]);
                }
            }
            return None;
        }
        Some(DevicePath { bytes: node })
    }

    /// The length of the node at `at`, where a whole node lies there.
    fn node_length(&self, at: usize) -> (r: Option<usize>)
        ensures
            r is Some <==> node_at(self@, at as int),
            r matches Some(n) ==> n == length_at(self@, at as int),
            self@.len() <= usize::MAX,
    {
        let n = self.bytes.len();
        if at > n || n - at < HEADER_SIZE {
            return None;
        }
        let lo: usize = self.bytes[at + 2] as usize;
        let hi: usize = self.bytes[at + 3] as usize;
        let len: usize = lo + 256 * hi;
        if len < HEADER_SIZE || len > n - at {
            None
        } else {
            Some(len)
        }
    }

    /// The header of the node at `at`, where a whole node lies there.
    pub fn header(&self, at: usize) -> (r: Option<DevicePathProtocol>)
        ensures
            r is Some <==> node_at(self@, at as int),
            r matches Some(h) ==> h == DevicePathProtocol::decoding(
                self@.subrange(at as int, at + 4),
            ),
            r matches Some(h) ==> h.len_spec() == length_at(self@, at as int),
    {
        match self.node_length(at) {
            None => None,
            Some(_) => {
                let h = DevicePathProtocol {
                    type_: self.bytes[at],
                    sub_type: self.bytes[at + 1],
                    length: [self.bytes[at + 2], self.bytes[at + 3]],
                };
                assert(h.length =~= DevicePathProtocol::decoding(
                    self@.subrange(at as int, at + 4),
                ).length);
                Some(h)
            },
        }
    }

    /// The bytes of the node at `at` behind its header, where a whole node
    /// lies there.
    pub fn payload(&self, at: usize) -> (r: Option<Vec<u8>>)
        ensures
            r is Some <==> node_at(self@, at as int),
            r matches Some(data) ==> data@ == self@.subrange(
                at + 4,
                at + length_at(self@, at as int),
            ),
    {
        match self.node_length(at) {
            None => None,
            Some(len) => {
                let mut data: Vec<u8> = Vec::new();
                extend_from_range(&mut data, &self.bytes, at + HEADER_SIZE, at + len);
                Some(data)
            },
        }
    }

    /// Where the node after the one at `at` starts. There is none where no
    /// whole node lies at `at`, nor after the node that ends the whole path.
    pub fn next(&self, at: usize) -> (r: Option<usize>)
        ensures
            r is Some <==> node_at(self@, at as int) && !terminator_at(self@, at as int),
            r matches Some(n) ==> n == at + length_at(self@, at as int),
    {
        match self.node_length(at) {
            None => None,
            Some(len) => {
                if self.bytes[at] == END_TYPE && self.bytes[at + 1] == END_ENTIRE_PATH {
                    None
                } else {
                    Some(at + len)
                }
            },
        }
    }

    /// The offset of the node that ends the path, where the buffer holds a
    /// well-formed path.
    pub fn terminator(&self) -> (r: Option<usize>)
        ensures
            r is Some <==> well_formed(self@),
            r matches Some(t) ==> t == terminator(self@),
    {
        let mut at: usize = 0;
        loop
            invariant
                at <= self.bytes.len(),
                chain_from(self@, 0) == chain_from(self@, at as int),
                terminator_from(self@, 0) == terminator_from(self@, at as int),
            decreases self.bytes.len() - at,
        {
            match self.node_length(at) {
                None => {
                    return None;
                },
                Some(len) => {
                    if self.bytes[at] == END_TYPE && self.bytes[at + 1] == END_ENTIRE_PATH {
                        return Some(at);
                    }
                    at = at + len;
                },
            }
        }
    }

    /// Whether the buffer holds a well-formed path.
    pub fn is_well_formed(&self) -> (b: bool)
        ensures
            b == well_formed(self@),
    {
        self.terminator().is_some()
    }

    /// The number of bytes that the path takes, the node that ends it
    /// included, where the buffer holds a well-formed path.
    pub fn size(&self) -> (r: Option<usize>)
        ensures
            r is Some <==> well_formed(self@),
            r matches Some(n) ==> n == size(self@),
    {
        match self.terminator() {
            None => None,
            Some(t) => {
                proof {
                    lemma_terminator(self@, 0);
                }
                match self.node_length(t) {
                    None => None,
                    Some(len) => Some(t + len),
                }
            },
        }
    }

    /// Walks the path and gives the offset of every node on it, the node that
    /// ends it last, where the buffer holds a well-formed path.
    pub fn walk(&self) -> (r: Option<Vec<usize>>)
        ensures
            r is Some <==> well_formed(self@),
            r matches Some(v) ==> as_ints(v@) == offsets_from(self@, 0),
    {
        let mut visited: Vec<usize> = Vec::new();
        let mut at: usize = 0;
        loop
            invariant
                at <= self.bytes.len(),
                chain_from(self@, 0) == chain_from(self@, at as int),
                offsets_from(self@, 0) == as_ints(visited@) + offsets_from(self@, at as int),
            decreases self.bytes.len() - at,
        {
            match self.node_length(at) {
                None => {
                    return None;
                },
                Some(len) => {
                    let ghost before = visited@;
                    visited.push(at);
                    assert(as_ints(visited@) =~= as_ints(before) + seq![at as int]);
                    if self.bytes[at] == END_TYPE && self.bytes[at + 1] == END_ENTIRE_PATH {
                        assert(offsets_from(self@, 0) =~= as_ints(visited@));
                        return Some(visited);
                    }
                    assert(offsets_from(self@, 0) =~= as_ints(visited@) + offsets_from(
                        self@,
                        at + len,
                    ));
                    at = at + len;
                },
            }
        }
    }

    /// A copy of the path in a buffer of exactly its size, where the buffer
    /// holds a well-formed path.
    pub fn duplicate(&self) -> (r: Option<DevicePath>)
        ensures
            r is Some <==> well_formed(self@),
            r matches Some(d) ==> d@ == duplicate_of(self@),
    {
        match self.size() {
            None => None,
            Some(size) => {
                proof {
                    lemma_terminator(self@, 0);
                }
                let mut bytes: Vec<u8> = Vec::new();
                extend_from_range(&mut bytes, &self.bytes, 0, size);
                assert(bytes@ =~= duplicate_of(self@));
                Some(DevicePath { bytes })
            },
        }
    }

    /// This path without the node that ends it, followed by `other`, where
    /// both are well-formed paths.
    pub fn append_path(&self, other: &DevicePath) -> (r: Option<DevicePath>)
        ensures
            r is Some <==> well_formed(self@) && well_formed(other@),
            r matches Some(d) ==> d@ == joined(self@, other@),
    {
        let cut = match self.terminator() {
            None => {
                return None;
            },
            Some(t) => t,
        };
        let size = match other.size() {
            None => {
                return None;
            },
            Some(n) => n,
        };
        proof {
            lemma_terminator(self@, 0);
            lemma_terminator(other@, 0);
        }
        let mut bytes: Vec<u8> = Vec::new();
        extend_from_range(&mut bytes, &self.bytes, 0, cut);
        extend_from_range(&mut bytes, &other.bytes, 0, size);
        assert(bytes@ =~= joined(self@, other@));
        Some(DevicePath { bytes })
    }

    /// This path with the first node of `node` put in before the node that
    /// ends the path, where this is a well-formed path and a whole node lies
    /// at the start of `node`.
    pub fn append_node(&self, node: &DevicePath) -> (r: Option<DevicePath>)
        ensures
            r is Some <==> well_formed(self@) && node_at(node@, 0),
            r matches Some(d) ==> d@ == with_node(self@, node@),
    {
        let cut = match self.terminator() {
            None => {
                return None;
            },
            Some(t) => t,
        };
        let len = match node.node_length(0) {
            None => {
                return None;
            },
            Some(n) => n,
        };
        proof {
            lemma_terminator(self@, 0);
        }
        let size = match self.size() {
            None => {
                return None;
            },
            Some(n) => n,
        };
        let mut bytes: Vec<u8> = Vec::new();
        extend_from_range(&mut bytes, &self.bytes, 0, cut);
        extend_from_range(&mut bytes, &node.bytes, 0, len);
        extend_from_range(&mut bytes, &self.bytes, cut, size);
        assert(bytes@ =~= with_node(self@, node@));
        Some(DevicePath { bytes })
    }

    /// A single node with the given header fields and a payload of zeros,
    /// where the length covers at least the header.
    pub fn create_node(node_type: u8, sub_type: u8, length: u16) -> (r: Option<DevicePath>)
        ensures
            r is Some <==> length >= HEADER_SIZE,
            r matches Some(d) ==> d@ == blank_node(node_type, sub_type, length as int),
            r matches Some(d) ==> node_at(d@, 0) && length_at(d@, 0) == d@.len() == length,
    {
        if (length as usize) < HEADER_SIZE {
            return None;
        }
        let header = DevicePathProtocol::new(node_type, sub_type, length);
        let mut bytes: Vec<u8> = Vec::new();
        bytes.push(header.type_);
        bytes.push(header.sub_type);
        bytes.push(header.length[0]);
        bytes.push(header.length[1]);
        let mut i: usize = 4;
        while i < length as usize
            invariant
                4 <= i <= length,
                bytes@.len() == i,
                bytes@.subrange(0, 4) == seq![
                    node_type,
                    sub_type,
                    header.length[0],
                    header.length[1],
                ],
                forall|k: int| 4 <= k < i ==> bytes@[k] == 0u8,
            decreases length - i,
        {
            let ghost before = bytes@;
            bytes.push(0);
            i += 1;
            assert(bytes@.subrange(0, 4) =~= before.subrange(0, 4));
        }
        proof {
            let h0 = header.length[0];
            let h1 = header.length[1];
            assert(h0 as int + 256 * (h1 as int) == length as int);
            assert(h0 == (length as int % 256) as u8);
            assert(h1 == (length as int / 256) as u8);
            assert(bytes@[0] == bytes@.subrange(0, 4)[0]);
            assert(bytes@[1] == bytes@.subrange(0, 4)[1]);
            assert(bytes@[2] == bytes@.subrange(0, 4)[2]);
            assert(bytes@[3] == bytes@.subrange(0, 4)[3]);
            assert(bytes@ =~= blank_node(node_type, sub_type, length as int));
        }
        Some(DevicePath { bytes })
    }

    /// Overwrites the header at `at` with that of a node that ends the whole
    /// path.
    pub(crate) fn set_end(&mut self, at: usize)
        requires
            at + HEADER_SIZE <= old(self)@.len(),
        ensures
            final(self)@ == with_end_at(old(self)@, at as int),
    {
        let n = self.bytes.len();
        assert(at + HEADER_SIZE <= n);
        self.bytes[at] = END_TYPE;
        self.bytes[at + 1] = END_ENTIRE_PATH;
        self.bytes[at + 2] = 4;
        self.bytes[at + 3] = 0;
    }
}

} // verus!
