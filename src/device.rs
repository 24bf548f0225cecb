use vstd::prelude::*;

verus! {

/// One active render endpoint, as seen by one enumeration.
#[derive(Clone, Debug)]
pub struct AudioDevice {
    /// The endpoint's identifier, unique within one enumeration.
    pub id: String,
    /// A display name; a fallback that embeds `id` when none could be read.
    pub name: String,
    /// Whether `id` is the default endpoint for the multimedia role.
    pub is_default: bool,
}

impl AudioDevice {
    /// A field-by-field copy.
    pub fn duplicate(&self) -> (r: AudioDevice)
        ensures
            r == *self,
    {
        AudioDevice { id: self.id.clone(), name: self.name.clone(), is_default: self.is_default }
    }
}

/// The type tag of a variant that holds a pointer to a null-terminated
/// wide-character string.
pub const WIDE_STRING_TAG: u16 = 31;

/// Where a variant's payload starts: after the tag and the reserved words.
pub const PAYLOAD_OFFSET: usize = 8;

/// The width of the pointer held in the payload slot.
pub const POINTER_WIDTH: usize = 8;

/// What a variant's raw bytes are read as.
#[derive(Clone, Copy, Debug, PartialEq, Eq, Structural)]
pub enum VariantSlot {
    /// A wide-character string at this non-null address.
    WideString(u64),
    /// Any other tag, a null pointer, or too few bytes.
    Unsupported,
}

/// The unsigned integer whose little-endian bytes are `b`.
pub open spec fn le_value(b: Seq<u8>) -> nat
    decreases b.len(),
{
    if b.len() == 0 {
        0
    } else {
        b[0] as nat + 256 * le_value(b.drop_first())
    }
}

/// The two-byte little-endian type tag at offset 0.
pub open spec fn variant_tag(b: Seq<u8>) -> int {
    b[0] as int + 256 * b[1] as int
}

/// The pointer held in the payload slot.
pub open spec fn payload_pointer(b: Seq<u8>) -> nat {
    le_value(b.subrange(PAYLOAD_OFFSET as int, PAYLOAD_OFFSET + POINTER_WIDTH))
}

/// How the variant with raw bytes `b` is read.
pub open spec fn slot_of(b: Seq<u8>) -> VariantSlot {
    if b.len() >= PAYLOAD_OFFSET + POINTER_WIDTH && variant_tag(b) == WIDE_STRING_TAG
        && payload_pointer(b) != 0 {
        VariantSlot::WideString(payload_pointer(b) as u64)
    } else {
        VariantSlot::Unsupported
    }
}

/// The name given to a device whose name could not be read.
pub open spec fn fallback_name_of(id: Seq<char>) -> Seq<char> {
    "Audio Device (Unknown Name) - "@ + id
}

/// What UTF-16 decoding makes of `units`: the text, or none where they are
/// not well-formed UTF-16.
pub uninterp spec fn utf16_text(units: Seq<u16>) -> Option<Seq<char>>;

/// The name of a device with identifier `id` whose name property was read as
/// `slot`; `units` are the code units found at the slot's address, if they
/// could be read.
pub open spec fn name_of(slot: VariantSlot, id: Seq<char>, units: Option<Seq<u16>>) -> Seq<char> {
    match slot {
        VariantSlot::WideString(_) => match units {
            Some(u) => match utf16_text(u) {
                Some(t) => t,
                None => fallback_name_of(id),
            },
            None => fallback_name_of(id),
        },
        VariantSlot::Unsupported => fallback_name_of(id),
    }
}

/// Relies on `String::from_utf16`: it decodes UTF-16, and fails where the
/// units hold an unpaired surrogate.
#[verifier::external_body]
fn decode_utf16(units: &Vec<u16>) -> (r: Option<String>)
    ensures
        match r {
            Some(s) => utf16_text(units@) == Some(s@),
            None => utf16_text(units@) is None,
        },
{
    String::from_utf16(units).ok()
}

proof fn lemma_le_value_bound(b: Seq<u8>)
    ensures
        le_value(b) < vstd::arithmetic::power::pow(256, b.len()),
    decreases b.len(),
{
    vstd::arithmetic::power::lemma_pow_positive(256, b.len());
    if b.len() > 0 {
        lemma_le_value_bound(b.drop_first());
        vstd::arithmetic::power::lemma_pow_adds(256, 1, (b.len() - 1) as nat);
        vstd::arithmetic::power::lemma_pow1(256);
        let p = vstd::arithmetic::power::pow(256, (b.len() - 1) as nat);
        let v = le_value(b.drop_first());
        assert(b[0] as nat + 256 * v < 256 * p) by (nonlinear_arith)
            requires
                v < p,
                b[0] < 256,
        ;
    }
}

/// Reads the pointer held in the payload slot of `b`.
fn read_pointer(b: &[u8]) -> (r: u64)
    requires
        b@.len() >= PAYLOAD_OFFSET + POINTER_WIDTH,
    ensures
        r as nat == payload_pointer(b@),
{
    let ghost slot = b@.subrange(PAYLOAD_OFFSET as int, PAYLOAD_OFFSET + POINTER_WIDTH);
    let mut v: u64 = 0;
    let mut k: usize = POINTER_WIDTH;
    proof {
        assert(slot.subrange(8, 8) =~= Seq::<u8>::empty());
    }
    while k > 0
        invariant
            k <= POINTER_WIDTH,
            b@.len() >= PAYLOAD_OFFSET + POINTER_WIDTH,
            slot == b@.subrange(PAYLOAD_OFFSET as int, PAYLOAD_OFFSET + POINTER_WIDTH),
            v as nat == le_value(slot.subrange(k as int, POINTER_WIDTH as int)),
        decreases k,
    {
        k = k - 1;
        let ghost rest = slot.subrange(k + 1, POINTER_WIDTH as int);
        let ghost cur = slot.subrange(k as int, POINTER_WIDTH as int);
        proof {
            assert(cur.drop_first() =~= rest);
            assert(cur[0] == b@[PAYLOAD_OFFSET + k]);
            lemma_le_value_bound(rest);
            lemma_le_value_bound(slot);
            vstd::arithmetic::power::lemma_pow_increases(256, rest.len(), 7);
            reveal_with_fuel(vstd::arithmetic::power::pow, 8);
            assert(vstd::arithmetic::power::pow(256, 7) == 0x100000000000000nat);
        }
        let byte = b[PAYLOAD_OFFSET + k] as u64;
        assert(v * 256 + byte <= u64::MAX) by (nonlinear_arith)
            requires
                v < 0x100000000000000nat,
                byte < 256,
        ;
        v = v * 256 + byte;
    }
    assert(slot.subrange(0, POINTER_WIDTH as int) =~= slot);
    v
}

/// Reads a variant from its raw bytes: a wide-character string where the
/// tag says so and the pointer in the payload slot is not null, and
/// unsupported in every other case.
pub fn read_variant(bytes: &[u8]) -> (r: VariantSlot)
    ensures
        r == slot_of(bytes@),
{
    if bytes.len() < PAYLOAD_OFFSET + POINTER_WIDTH {
        return VariantSlot::Unsupported;
    }
    let tag: u16 = bytes[0] as u16 + 256 * (bytes[1] as u16);
    if tag != WIDE_STRING_TAG {
        return VariantSlot::Unsupported;
    }
    let pointer = read_pointer(bytes);
    if pointer == 0 {
        VariantSlot::Unsupported
    } else {
        VariantSlot::WideString(pointer)
    }
}

/// The name given to the device `id` when its name cannot be read.
pub fn fallback_name(id: &String) -> (r: String)
    ensures
        r@ == fallback_name_of(id@),
{
    let mut name = String::from_str("Audio Device (Unknown Name) - ");
    name.append(id.as_str());
    name
}

/// The display name of the device `id`, from its name property read as
/// `slot` and the code units read at the slot's address (none where they
/// could not be read): the decoded text, or the fallback name wherever the
/// tag, the pointer or the decoding fails.
pub fn resolve_name(slot: &VariantSlot, id: &String, units: Option<Vec<u16>>) -> (r: String)
    ensures
        r@ == name_of(
            *slot,
            id@,
            match units {
                Some(u) => Some(u@),
                None => None,
            },
        ),
{
    match slot {
        VariantSlot::WideString(_) => match units {
            Some(u) => match decode_utf16(&u) {
                Some(text) => text,
                None => fallback_name(id),
            },
            None => fallback_name(id),
        },
        VariantSlot::Unsupported => fallback_name(id),
    }
}

/// A variant with any tag other than the wide-string one is never decoded:
/// the name is the fallback, and it holds the device's own id.
pub proof fn lemma_other_tag_names_by_id(bytes: Seq<u8>, id: Seq<char>, units: Option<Seq<u16>>)
    requires
        bytes.len() < 2 || variant_tag(bytes) != WIDE_STRING_TAG,
    ensures
        slot_of(bytes) == VariantSlot::Unsupported,
        name_of(slot_of(bytes), id, units) == fallback_name_of(id),
        exists|k: int|
            0 <= k && k + id.len() <= name_of(slot_of(bytes), id, units).len()
                && #[trigger] name_of(slot_of(bytes), id, units).subrange(k, k + id.len()) == id,
{
    let name = fallback_name_of(id);
    let k = "Audio Device (Unknown Name) - "@.len() as int;
    assert(name.subrange(k, k + id.len()) =~= id);
}

/// A variant with the wide-string tag and a non-null pointer is named by
/// exactly the text decoded from the units at that pointer.
pub proof fn lemma_wide_string_decoded(bytes: Seq<u8>, id: Seq<char>, units: Seq<u16>)
    requires
        bytes.len() >= PAYLOAD_OFFSET + POINTER_WIDTH,
        variant_tag(bytes) == WIDE_STRING_TAG,
        payload_pointer(bytes) != 0,
        utf16_text(units) is Some,
    ensures
        slot_of(bytes) is WideString,
        name_of(slot_of(bytes), id, Some(units)) == utf16_text(units).unwrap(),
{
}

/// Whether a device with identifier `id` is the default one, given the
/// identifier of the default endpoint; an empty one matches nothing.
pub open spec fn marks_default(id: Seq<char>, default_id: Seq<char>) -> bool {
    default_id.len() > 0 && id == default_id
}

/// The device `id` named `name`, marked default where its id is `default_id`.
pub fn make_device(id: String, name: String, default_id: &String) -> (r: AudioDevice)
    ensures
        r.id == id,
        r.name == name,
        r.is_default == marks_default(id@, default_id@),
{
    let is_default = !default_id.as_str().is_empty() && id == *default_id;
    AudioDevice { id, name, is_default }
}

/// The device list of one enumeration, built up in the order in which the
/// endpoints are reported.
pub struct DeviceList {
    default_id: String,
    devices: Vec<AudioDevice>,
}

impl DeviceList {
    /// The identifier of the default endpoint against which devices are marked.
    pub closed spec fn default_id(&self) -> Seq<char> {
        self.default_id@
    }

    /// The devices added so far, in order.
    pub closed spec fn devices(&self) -> Seq<AudioDevice> {
        self.devices@
    }

    /// Each device is marked default exactly where its id is the default one.
    pub open spec fn wf(&self) -> bool {
        forall|i: int|
            0 <= i < self.devices().len() ==> (#[trigger] self.devices()[i]).is_default
                == marks_default(self.devices()[i].id@, self.default_id())
    }

    /// An empty list; `default_id` is the default endpoint's identifier, or
    /// none where it could not be looked up.
    pub fn new(default_id: Option<String>) -> (r: DeviceList)
        ensures
            r.wf(),
            r.devices().len() == 0,
            r.default_id() == (match default_id {
                Some(d) => d@,
                None => Seq::<char>::empty(),
            }),
    {
        let default_id = match default_id {
            Some(d) => d,
            None => String::new(),
        };
        DeviceList { default_id, devices: Vec::new() }
    }

    /// Appends the endpoint `id` named `name`.
    pub fn add(&mut self, id: String, name: String)
        requires
            old(self).wf(),
        ensures
            final(self).wf(),
            final(self).default_id() == old(self).default_id(),
            final(self).devices() == old(self).devices().push(
                AudioDevice { id, name, is_default: marks_default(id@, old(self).default_id()) },
            ),
    {
        let device = make_device(id, name, &self.default_id);
        let ghost before = self.devices@;
        self.devices.push(device);
        assert forall|i: int| 0 <= i < self.devices@.len() implies (#[trigger] self.devices@[i]).is_default
            == marks_default(self.devices@[i].id@, self.default_id@) by {
            if i < before.len() {
                assert(self.devices@[i] == before[i]);
                assert(old(self).devices()[i] == before[i]);
            }
        }
    }

    /// The devices, in the order in which they were added.
    pub fn into_devices(self) -> (r: Vec<AudioDevice>)
        requires
            self.wf(),
        ensures
            r@ == self.devices(),
            forall|i: int| 0 <= i < r@.len() ==> (#[trigger] r@[i]).is_default
                == marks_default(r@[i].id@, self.default_id()),
    {
        assert forall|i: int| 0 <= i < self.devices@.len() implies (#[trigger] self.devices@[i]).is_default
            == marks_default(self.devices@[i].id@, self.default_id@) by {
            assert(self.devices()[i] == self.devices@[i]);
        }
        self.devices
    }
}

/// Where the ids in a list are distinct and each device is marked default
/// exactly where its id is `default_id`, at most one device is default.
pub proof fn lemma_at_most_one_default(devices: Seq<AudioDevice>, default_id: Seq<char>)
    requires
        forall|i: int, j: int|
            0 <= i < j < devices.len() ==> (#[trigger] devices[i]).id@ != (#[trigger] devices[j]).id@,
        forall|i: int| 0 <= i < devices.len() ==> (#[trigger] devices[i]).is_default
            == marks_default(devices[i].id@, default_id),
    ensures
        forall|i: int, j: int|
            0 <= i < devices.len() && 0 <= j < devices.len() && (#[trigger] devices[i]).is_default
                && (#[trigger] devices[j]).is_default ==> i == j,
{
    assert forall|i: int, j: int|
        0 <= i < devices.len() && 0 <= j < devices.len() && (#[trigger] devices[i]).is_default
            && (#[trigger] devices[j]).is_default implies i == j by {
        if i < j {
            assert(devices[i].id@ != devices[j].id@);
        } else if j < i {
            assert(devices[j].id@ != devices[i].id@);
        }
    }
}

} // verus!
