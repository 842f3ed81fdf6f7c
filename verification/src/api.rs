//! The archive capability contract and the generic bridge around it.
//!
//! [`RdFormat`] is the interface any concrete archive format supplies. The
//! bridge pairs an owned instance (or none, standing for the host's null
//! pointer) with the dispatch of its concrete type: [`ArchiveBaseVTable`]
//! carries the per-instance operations and [`ArchiveFormatVTable`] the
//! per-format ones, each tolerating absent inputs as the boundary demands.

use vstd::prelude::*;

verus! {

use vstd::string::StringSliceAdditionalSpecFns;

/// Capability contract for one archive format: open a container, enumerate
/// its entries, and extract entry payloads.
pub trait RdFormat: Sized {
    /// Structural invariant every successfully opened instance satisfies.
    spec fn inv(&self) -> bool;

    /// The decoded entry names, in container order.
    spec fn entry_names(&self) -> Seq<Seq<char>>;

    /// The declared entry sizes, in container order.
    spec fn entry_sizes(&self) -> Seq<u32>;

    /// The bytes extracting entry `idx` yields, or `None` when the entry is
    /// absent or its payload lies outside the container.
    spec fn stream_of(&self, idx: int) -> Option<Seq<u8>>;

    /// Which buffers this format accepts as its own.
    spec fn opens(b: Seq<u8>) -> bool;

    /// The instance is the parse of buffer `b`.
    spec fn opened_from(&self, b: Seq<u8>) -> bool;

    /// Which buffer/extension pairs the advisory sniff claims.
    spec fn claims(b: Seq<u8>, ext: Seq<char>) -> bool;

    /// The format's short identity code.
    spec fn tag_spec() -> Seq<char>;

    /// The format's human-readable description.
    spec fn description_spec() -> Seq<char>;

    /// Called once at load time; returning false vetoes loading.
    fn plugin_init() -> bool;

    /// Called once at unload; best-effort cleanup that must not fail.
    fn plugin_shutdown();

    /// Static identity code of the format.
    fn tag() -> (t: &'static str)
        ensures
            t@ == Self::tag_spec(),
    ;

    /// Static description of the format.
    fn description() -> (d: &'static str)
        ensures
            d@ == Self::description_spec(),
    ;

    /// Fast, read-only sniff; advisory only, the host may still try other
    /// formats either way.
    fn can_handle_file(buffer: &[u8], ext: &str) -> (r: bool)
        ensures
            r == Self::claims(buffer@, ext@),
    ;

    /// Parses header and index eagerly; any structural mismatch is a normal
    /// "not this format" outcome, never a panic.
    fn try_open(buffer: &[u8], file_name: &str) -> (r: Option<Self>)
        ensures
            (r is Some) == Self::opens(buffer@),
            r matches Some(a) ==> a.inv() && a.opened_from(buffer@),
    ;

    /// Number of parsed entries.
    fn get_entry_count(&self) -> (n: usize)
        requires
            self.inv(),
        ensures
            n == self.entry_names().len(),
            n == self.entry_sizes().len(),
    ;

    /// The name of entry `idx`, or `None` when the index is out of range.
    fn get_entry_name(&self, idx: usize) -> (r: Option<&str>)
        requires
            self.inv(),
        ensures
            (match r {
                Some(s) => idx < self.entry_names().len() && s@ == self.entry_names()[idx as int],
                None => idx >= self.entry_names().len(),
            }),
    ;

    /// The declared size of entry `idx`, or zero when the index is out of
    /// range.
    fn get_entry_size(&self, idx: usize) -> (r: usize)
        requires
            self.inv(),
        ensures
            r == (if idx < self.entry_sizes().len() {
                self.entry_sizes()[idx as int] as usize
            } else {
                0usize
            }),
    ;

    /// Extracts and decrypts the payload of entry `idx` into a fresh owned
    /// buffer; an out-of-range index or a payload outside the container
    /// yields `None` and leaves the instance as it was.
    fn open_stream(&mut self, idx: usize) -> (r: Option<Vec<u8>>)
        requires
            old(self).inv(),
        ensures
            final(self).inv(),
            final(self).entry_names() == old(self).entry_names(),
            final(self).entry_sizes() == old(self).entry_sizes(),
            forall|i: int| final(self).stream_of(i) == old(self).stream_of(i),
            (match r {
                Some(v) => old(self).stream_of(idx as int) == Some(v@),
                None => old(self).stream_of(idx as int) is None,
            }),
            r matches Some(v) ==> idx < old(self).entry_sizes().len() && v@.len() == old(
                self,
            ).entry_sizes()[idx as int],
    ;
}

/// Both instance slots hold the same entry table and streams; what the
/// per-instance operations preserve.
pub open spec fn same_views<T: RdFormat>(a: Option<T>, b: Option<T>) -> bool {
    match (a, b) {
        (Some(x), Some(y)) => {
            &&& x.entry_names() == y.entry_names()
            &&& x.entry_sizes() == y.entry_sizes()
            &&& forall|i: int| x.stream_of(i) == y.stream_of(i)
        },
        (None, None) => true,
        _ => false,
    }
}

/// The pair that crosses the boundary for an open archive: an owned
/// instance, or none standing for the host's null pointer, permanently
/// associated with the dispatch of the concrete format type that created it.
pub struct ArchiveBaseHandle<T: RdFormat> {
    /// The owned instance; `None` models a null instance pointer.
    pub inst: Option<T>,
}

impl<T: RdFormat> ArchiveBaseHandle<T> {
    /// A handle holding no instance.
    pub fn empty() -> (h: Self)
        ensures
            h.inst is None,
    {
        ArchiveBaseHandle { inst: None }
    }
}

/// Per-instance operations of one format, bound to an open archive. A null
/// (absent) instance means zero entries and no data, never a fault.
pub struct ArchiveBaseVTable<T: RdFormat> {
    marker: core::marker::PhantomData<T>,
}

impl<T: RdFormat> ArchiveBaseVTable<T> {
    /// Entry count of the instance; a null instance has zero entries.
    pub fn get_entry_count(inst: &Option<T>) -> (n: usize)
        requires
            (*inst) matches Some(a) ==> a.inv(),
        ensures
            n == (match *inst {
                Some(a) => a.entry_names().len(),
                None => 0,
            }),
    {
        match inst {
            Some(a) => a.get_entry_count(),
            None => 0,
        }
    }

    /// Name of entry `index`, or `None` for a null instance or an
    /// out-of-range index.
    pub fn get_entry_name<'a>(inst: &'a Option<T>, index: usize) -> (r: Option<&'a str>)
        requires
            (*inst) matches Some(a) ==> a.inv(),
        ensures
            (match r {
                Some(s) => (*inst) matches Some(a) && index < a.entry_names().len() && s@
                    == a.entry_names()[index as int],
                None => ((*inst) matches Some(a) ==> index >= a.entry_names().len()),
            }),
    {
        match inst {
            Some(a) => a.get_entry_name(index),
            None => None,
        }
    }

    /// Size of entry `index`, or zero for a null instance or an
    /// out-of-range index.
    pub fn get_entry_size(inst: &Option<T>, index: usize) -> (r: usize)
        requires
            (*inst) matches Some(a) ==> a.inv(),
        ensures
            r == (match *inst {
                Some(a) => if index < a.entry_sizes().len() {
                    a.entry_sizes()[index as int] as usize
                } else {
                    0usize
                },
                None => 0usize,
            }),
    {
        match inst {
            Some(a) => a.get_entry_size(index),
            None => 0,
        }
    }

    /// Extracts entry `index` into a fresh owned buffer whose length is also
    /// written to `out_size`; a null instance or a failed extraction yields
    /// `None` with `out_size` set to zero. The instance itself is unchanged.
    pub fn open_stream(inst: &mut Option<T>, index: usize, out_size: &mut usize) -> (r: Option<
        Vec<u8>,
    >)
        requires
            (*old(inst)) matches Some(a) ==> a.inv(),
        ensures
            same_views(*old(inst), *final(inst)),
            (*final(inst)) matches Some(a) ==> a.inv(),
            (match r {
                Some(v) => (*old(inst)) matches Some(a) && a.stream_of(index as int) == Some(v@)
                    && *final(out_size) == v@.len(),
                None => *final(out_size) == 0,
            }),
            (match *old(inst) {
                Some(a) => r is None ==> a.stream_of(index as int) is None,
                None => true,
            }),
            (*old(inst)) is None ==> r is None,
    {
        match inst {
            Some(a) => {
                let r = a.open_stream(index);
                match &r {
                    Some(v) => {
                        *out_size = v.len();
                    },
                    None => {
                        *out_size = 0;
                    },
                }
                r
            },
            None => {
                *out_size = 0;
                None
            },
        }
    }

    /// Consumes the handle and with it the instance it owns, reclaiming its
    /// memory exactly once; a null handle is a no-op.
    pub fn destroy(_handle: Option<ArchiveBaseHandle<T>>) {
    }
}

/// Per-format operations, bound to the format type itself rather than to an
/// instance. Absent inputs model null pointers at the boundary and yield
/// empty results.
pub struct ArchiveFormatVTable<T: RdFormat> {
    marker: core::marker::PhantomData<T>,
}

impl<T: RdFormat> ArchiveFormatVTable<T> {
    /// Constructs the per-format handle; the format keeps no instance state.
    pub fn new(_ctx: Option<&SdkCtx>) -> Self {
        ArchiveFormatVTable { marker: core::marker::PhantomData }
    }

    /// Advisory sniff; a null buffer or extension is never claimed.
    pub fn can_handle_file(buffer: Option<&[u8]>, ext: Option<&str>) -> (r: bool)
        ensures
            r == (match (buffer, ext) {
                (Some(b), Some(e)) => T::claims(b@, e@),
                _ => false,
            }),
    {
        match (buffer, ext) {
            (Some(b), Some(e)) => T::can_handle_file(b, e),
            _ => false,
        }
    }

    /// Opens a container: on success the returned handle owns the freshly
    /// parsed instance; a null input or a structural mismatch yields `None`.
    pub fn try_open(buffer: Option<&[u8]>, file_name: Option<&str>) -> (r: Option<
        ArchiveBaseHandle<T>,
    >)
        ensures
            (match (buffer, file_name) {
                (Some(b), Some(_)) => {
                    &&& (r is Some) == T::opens(b@)
                    &&& (r matches Some(h) ==> h.inst matches Some(a) && a.inv()
                        && a.opened_from(b@))
                },
                _ => r is None,
            }),
    {
        match (buffer, file_name) {
            (Some(b), Some(f)) => match T::try_open(b, f) {
                Some(a) => Some(ArchiveBaseHandle { inst: Some(a) }),
                None => None,
            },
            _ => None,
        }
    }

    /// Static identity code of the format.
    pub fn get_tag() -> (t: &'static str)
        ensures
            t@ == T::tag_spec(),
    {
        T::tag()
    }

    /// Static description of the format.
    pub fn get_description() -> (d: &'static str)
        ensures
            d@ == T::description_spec(),
    {
        T::description()
    }
}

/// Opaque host SDK context: the host interprets it, this library only ever
/// passes it through.
pub struct SdkCtx {}

/// Severity levels of the host logging interface.
pub enum RdLogLevel {
    Info,
    Warn,
    Error,
}

impl RdLogLevel {
    /// The wire code the host assigns to each level.
    pub fn code(&self) -> (c: u32)
        ensures
            c == (match *self {
                RdLogLevel::Info => 0u32,
                RdLogLevel::Warn => 1u32,
                RdLogLevel::Error => 2u32,
            }),
    {
        match self {
            RdLogLevel::Info => 0,
            RdLogLevel::Warn => 1,
            RdLogLevel::Error => 2,
        }
    }
}

/// Types a formatted log argument can carry across the boundary.
pub enum RdLogArgType {
    Text,
    Bool,
    S64,
    U64,
    F64,
}

impl RdLogArgType {
    /// The wire code the host assigns to each argument type.
    pub fn code(&self) -> (c: u32)
        ensures
            c == (match *self {
                RdLogArgType::Text => 0u32,
                RdLogArgType::Bool => 1u32,
                RdLogArgType::S64 => 2u32,
                RdLogArgType::U64 => 3u32,
                RdLogArgType::F64 => 4u32,
            }),
    {
        match self {
            RdLogArgType::Text => 0,
            RdLogArgType::Bool => 1,
            RdLogArgType::S64 => 2,
            RdLogArgType::U64 => 3,
            RdLogArgType::F64 => 4,
        }
    }
}

/// A text argument as the host receives it: the bytes and their length.
pub struct RdLogStringArg {
    /// UTF-8 bytes of the text, without terminator.
    pub data: Vec<u8>,
    /// Number of bytes held.
    pub size: usize,
}

impl RdLogStringArg {
    /// Well-formed when the recorded size matches the bytes held.
    pub open spec fn wf(&self) -> bool {
        self.size == self.data@.len()
    }

    /// Packs text for the boundary, recording its exact byte length.
    pub fn new(text: &str) -> (r: Self)
        ensures
            r.wf(),
            r.data@ == text.spec_bytes(),
    {
        let bytes = text.as_bytes();
        let data = vstd::slice::slice_to_vec(bytes);
        let size = data.len();
        RdLogStringArg { data, size }
    }
}

} // verus!
