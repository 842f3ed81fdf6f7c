//! The NFA0 container decoder: parses the obfuscated index eagerly and
//! decrypts entry payloads on demand.

use vstd::prelude::*;

verus! {

use crate::api::RdFormat;
use crate::format::{
    entry_count_of,
    entry_name_units,
    entry_offset_of,
    entry_size_of,
    lemma_term_len_of,
    magic_ok,
    name_units,
    norm_unit,
    parse_ok,
    read_le32,
    rec_base,
    term_len,
    unit_at,
    xor_mask,
    BYTE_MASK,
    FIELD_MASK,
    HEADER_LEN,
    NAME_UNITS,
    RECORD_LEN,
    SECONDARY_CONSTANT,
    SUPPORTED_VERSION,
};
use crate::utf16::{decode_utf16_lossy, utf16_lossy_of};

/// One logical file inside the container.
pub struct NemeaEntry {
    /// Decoded, separator-normalized path of the entry.
    pub name: String,
    /// Byte offset of the payload inside the container.
    pub offset: u32,
    /// Byte length of the payload.
    pub size: u32,
}

/// Entry `e` is exactly what the wire-format model declares for record `k`.
pub open spec fn entry_matches(b: Seq<u8>, k: int, e: NemeaEntry) -> bool {
    &&& e.size == entry_size_of(b, k)
    &&& e.offset == entry_offset_of(b, k)
    &&& e.name@ == utf16_lossy_of(entry_name_units(b, k))
}

/// An open NFA0 container: the raw bytes plus the parsed entry table, in
/// container order, never reordered or deduplicated.
pub struct NemeaArchive {
    /// The container bytes exactly as handed to `try_open`.
    pub data: Vec<u8>,
    /// The parsed entries, one per index record.
    pub entries: Vec<NemeaEntry>,
}

impl NemeaArchive {
    /// The buffer parses and every held entry agrees with the wire-format
    /// model of the buffer.
    pub open spec fn wf(&self) -> bool {
        &&& parse_ok(self.data@)
        &&& self.entries@.len() == entry_count_of(self.data@)
        &&& forall|k: int|
            0 <= k < self.entries@.len() ==> entry_matches(self.data@, k, #[trigger] self.entries@[k])
    }
}

impl RdFormat for NemeaArchive {
    open spec fn inv(&self) -> bool {
        self.wf()
    }

    open spec fn entry_names(&self) -> Seq<Seq<char>> {
        self.entries@.map_values(|e: NemeaEntry| e.name@)
    }

    open spec fn entry_sizes(&self) -> Seq<u32> {
        self.entries@.map_values(|e: NemeaEntry| e.size)
    }

    open spec fn stream_of(&self, idx: int) -> Option<Seq<u8>> {
        if 0 <= idx < self.entries@.len() && self.entries@[idx].offset + self.entries@[idx].size
            <= self.data@.len() {
            Some(
                xor_mask(
                    self.data@.subrange(
                        self.entries@[idx].offset as int,
                        self.entries@[idx].offset + self.entries@[idx].size,
                    ),
                ),
            )
        } else {
            None
        }
    }

    open spec fn opens(b: Seq<u8>) -> bool {
        parse_ok(b)
    }

    open spec fn opened_from(&self, b: Seq<u8>) -> bool {
        self.data@ == b && self.wf()
    }

    open spec fn claims(b: Seq<u8>, ext: Seq<char>) -> bool {
        ext == "bin"@ && b.len() >= HEADER_LEN && magic_ok(b)
    }

    open spec fn tag_spec() -> Seq<char> {
        "NFA0"@
    }

    open spec fn description_spec() -> Seq<char> {
        "NFA0 format as seen in Fushigi no Gensokyo CHRONICLE"@
    }

    fn plugin_init() -> bool {
        true
    }

    fn plugin_shutdown() {
    }

    fn tag() -> (t: &'static str) {
        "NFA0"
    }

    fn description() -> (d: &'static str) {
        "NFA0 format as seen in Fushigi no Gensokyo CHRONICLE"
    }

    fn can_handle_file(buffer: &[u8], ext: &str) -> (r: bool) {
        proof {
            reveal_strlit("bin");
        }
        if ext.unicode_len() != 3 {
            return false;
        }
        if ext.get_char(0) != 'b' || ext.get_char(1) != 'i' || ext.get_char(2) != 'n' {
            return false;
        }
        assert(ext@ =~= "bin"@);
        if buffer.len() < HEADER_LEN {
            return false;
        }
        let m = buffer[0] == 0x4e && buffer[1] == 0x46 && buffer[2] == 0x41 && buffer[3] == 0x30;
        m
    }

    fn try_open(buffer: &[u8], _file_name: &str) -> (r: Option<Self>) {
        if buffer.len() < HEADER_LEN {
            return None;
        }
        if !(buffer[0] == 0x4e && buffer[1] == 0x46 && buffer[2] == 0x41 && buffer[3] == 0x30) {
            return None;
        }
        if read_le32(buffer, 4) != SUPPORTED_VERSION {
            return None;
        }
        let count = read_le32(buffer, 8);
        if read_le32(buffer, 12) != SECONDARY_CONSTANT {
            return None;
        }
        let needed: u64 = (HEADER_LEN as u64) + (count as u64) * (RECORD_LEN as u64);
        if (buffer.len() as u64) < needed {
            proof {
                assert(!parse_ok(buffer@));
            }
            return None;
        }
        assert(parse_ok(buffer@));
        let mut entries: Vec<NemeaEntry> = Vec::new();
        let mut k: usize = 0;
        while k < count as usize
            invariant
                parse_ok(buffer@),
                count == entry_count_of(buffer@),
                buffer@.len() >= HEADER_LEN + count * RECORD_LEN,
                buffer@.len() <= usize::MAX,
                k <= count,
                entries@.len() == k,
                forall|j: int| 0 <= j < k ==> entry_matches(buffer@, j, #[trigger] entries@[j]),
            decreases count - k,
        {
            proof {
                assert((k + 1) * (RECORD_LEN as int) <= (count as int) * (RECORD_LEN as int))
                    by (nonlinear_arith)
                    requires
                        k + 1 <= count,
                ;
            }
            let base: usize = HEADER_LEN + k * RECORD_LEN;
            let size = read_le32(buffer, base + 8) ^ FIELD_MASK;
            let offset = read_le32(buffer, base + 12) ^ FIELD_MASK;
            assert(size == entry_size_of(buffer@, k as int));
            assert(offset == entry_offset_of(buffer@, k as int));
            let mut units: Vec<u16> = Vec::new();
            let mut i: usize = 0;
            while i < NAME_UNITS
                invariant
                    base == HEADER_LEN + k * RECORD_LEN,
                    base + RECORD_LEN <= buffer@.len(),
                    buffer@.len() <= usize::MAX,
                    i <= NAME_UNITS,
                    units@.len() == i,
                    forall|j: int| 0 <= j < i ==> units@[j] == unit_at(buffer@, k as int, j),
                decreases NAME_UNITS - i,
            {
                let b0 = buffer[base + 20 + 2 * i] ^ BYTE_MASK;
                let b1 = buffer[base + 20 + 2 * i + 1] ^ BYTE_MASK;
                let u: u16 = (b0 as u16) | ((b1 as u16) << 8);
                assert(u == unit_at(buffer@, k as int, i as int));
                units.push(u);
                i += 1;
            }
            assert(units@ =~= name_units(buffer@, k as int));
            let mut t: usize = 0;
            while t < NAME_UNITS && units[t] != 0
                invariant
                    units@.len() == NAME_UNITS,
                    t <= NAME_UNITS,
                    forall|j: int| 0 <= j < t ==> units@[j] != 0,
                decreases NAME_UNITS - t,
            {
                t += 1;
            }
            proof {
                lemma_term_len_of(units@, t as int);
            }
            let mut norm: Vec<u16> = Vec::new();
            let mut m: usize = 0;
            while m < t
                invariant
                    t <= units@.len(),
                    m <= t,
                    norm@.len() == m,
                    forall|j: int| 0 <= j < m ==> norm@[j] == norm_unit(units@[j]),
                decreases t - m,
            {
                let x = units[m];
                if x == 0x5c {
                    norm.push(0x2f);
                } else {
                    norm.push(x);
                }
                m += 1;
            }
            assert(norm@ =~= entry_name_units(buffer@, k as int));
            let name = decode_utf16_lossy(norm.as_slice());
            entries.push(NemeaEntry { name, offset, size });
            k += 1;
        }
        let data = vstd::slice::slice_to_vec(buffer);
        let archive = NemeaArchive { data, entries };
        assert(archive.wf());
        Some(archive)
    }

    fn get_entry_count(&self) -> (n: usize) {
        self.entries.len()
    }

    fn get_entry_name(&self, idx: usize) -> (r: Option<&str>) {
        if idx >= self.entries.len() {
            return None;
        }
        Some(self.entries[idx].name.as_str())
    }

    fn get_entry_size(&self, idx: usize) -> (r: usize) {
        if idx >= self.entries.len() {
            return 0;
        }
        self.entries[idx].size as usize
    }

    fn open_stream(&mut self, idx: usize) -> (r: Option<Vec<u8>>) {
        if idx >= self.entries.len() {
            return None;
        }
        let offset = self.entries[idx].offset;
        let size = self.entries[idx].size;
        if (offset as u64) + (size as u64) > (self.data.len() as u64) {
            return None;
        }
        let off = offset as usize;
        let n = size as usize;
        let mut out: Vec<u8> = Vec::new();
        let mut i: usize = 0;
        while i < n
            invariant
                off + n <= self.data@.len(),
                self.data@.len() <= usize::MAX,
                i <= n,
                out@.len() == i,
                forall|j: int| 0 <= j < i ==> out@[j] == self.data@[off + j] ^ BYTE_MASK,
            decreases n - i,
        {
            let byte = self.data[off + i] ^ BYTE_MASK;
            out.push(byte);
            i += 1;
        }
        proof {
            assert(out@ =~= xor_mask(self.data@.subrange(off as int, off as int + n as int)));
        }
        Some(out)
    }
}

/// Law: a buffer shorter than the fixed header is neither claimed by the
/// sniff nor opened, whatever extension comes with it.
pub proof fn lemma_short_buffer_rejected(b: Seq<u8>, ext: Seq<char>)
    requires
        b.len() < HEADER_LEN,
    ensures
        !NemeaArchive::claims(b, ext),
        !NemeaArchive::opens(b),
{
}

/// Law: a buffer whose first four bytes are not the format's magic is never
/// opened.
pub proof fn lemma_wrong_magic_rejected(b: Seq<u8>)
    requires
        b.len() >= 4,
        b.subrange(0, 4) != seq![0x4eu8, 0x46u8, 0x41u8, 0x30u8],
    ensures
        !NemeaArchive::opens(b),
{
    if magic_ok(b) {
        assert(b.subrange(0, 4) =~= seq![0x4eu8, 0x46u8, 0x41u8, 0x30u8]);
    }
}

/// Law: a plaintext name stored in record `k` as XOR-masked little-endian
/// UTF-16 code units comes out of the full pipeline as exactly the decoding
/// of its plaintext prefix up to the NUL terminator, separators normalized.
pub proof fn lemma_entry_name_round_trip(a: NemeaArchive, k: int, w: Seq<u16>)
    requires
        a.wf(),
        0 <= k < a.entries@.len(),
        w.len() == NAME_UNITS,
        forall|i: int|
            0 <= i < NAME_UNITS ==> a.data@[rec_base(k) + 20 + 2 * i] == ((#[trigger] w[i]) as u8)
                ^ BYTE_MASK && a.data@[rec_base(k) + 20 + 2 * i + 1] == ((w[i] >> 8) as u8)
                ^ BYTE_MASK,
    ensures
        a.entries@[k].name@ == utf16_lossy_of(Seq::new(term_len(w), |i: int| norm_unit(w[i]))),
{
    assert((k + 1) * (RECORD_LEN as int) <= (entry_count_of(a.data@) as int) * (
    RECORD_LEN as int)) by (nonlinear_arith)
        requires
            k + 1 <= entry_count_of(a.data@) as int,
    ;
    crate::format::lemma_name_units_round_trip(a.data@, k, w);
    assert(entry_name_units(a.data@, k) =~= Seq::new(term_len(w), |i: int| norm_unit(w[i])));
}

/// Law: a payload stored XOR-masked at an entry's declared offset decrypts
/// back to the original plaintext when the entry's stream is opened.
pub proof fn lemma_stream_round_trip(a: NemeaArchive, k: int, p: Seq<u8>)
    requires
        0 <= k < a.entries@.len(),
        a.entries@[k].size == p.len(),
        a.entries@[k].offset + p.len() <= a.data@.len(),
        a.data@.subrange(a.entries@[k].offset as int, a.entries@[k].offset + p.len()) == xor_mask(
            p,
        ),
    ensures
        a.stream_of(k) == Some(p),
{
    crate::format::lemma_xor_mask_involutive(p);
}

} // verus!
