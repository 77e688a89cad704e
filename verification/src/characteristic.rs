//! Characteristics: their kinds, formats, permissions and units, and the Siri
//! Endpoint Session Status characteristic of the camera.

use vstd::prelude::*;

verus! {

/// The kinds of service and characteristic this crate deals with.
#[derive(Debug, Clone, Copy, PartialEq, Eq, Structural)]
pub enum HapType {
    AccessoryInformation,
    CameraStreamManagement,
    Microphone,
    SetupEndpoint,
    SelectedStreamConfiguration,
    StreamingStatus,
    SupportedVideoStreamConfiguration,
    SupportedAudioStreamConfiguration,
    SupportedRtpConfiguration,
    SiriEndpointSessionStatus,
}

/// The value format of a characteristic.
#[derive(Debug, Clone, Copy, PartialEq, Eq, Structural)]
pub enum Format {
    Bool,
    UInt8,
    UInt16,
    UInt32,
    UInt64,
    Int32,
    Float,
    String,
    Tlv8,
    Data,
}

/// What a controller may do with a characteristic.
#[derive(Debug, Clone, Copy, PartialEq, Eq, Structural)]
pub enum Perm {
    PairedRead,
    PairedWrite,
    Events,
    AdditionalAuthorization,
    TimedWrite,
    Hidden,
    WriteResponse,
}

/// The unit of a characteristic's value.
#[derive(Debug, Clone, Copy, PartialEq, Eq, Structural)]
pub enum Unit {
    Celsius,
    Percentage,
    ArcDegrees,
    Lux,
    Seconds,
}

/// The Siri Endpoint Session Status characteristic: a TLV8 value that controllers may
/// read and subscribe to.
#[derive(Debug)]
pub struct SiriEndpointSessionStatusCharacteristic {
    id: u64,
    accessory_id: u64,
    hap_type: HapType,
    format: Format,
    perms: Vec<Perm>,
    description: Option<String>,
    event_notifications: Option<bool>,
    value: Vec<u8>,
    unit: Option<Unit>,
    max_value: Option<Vec<u8>>,
    min_value: Option<Vec<u8>>,
    step_value: Option<Vec<u8>>,
    max_len: Option<u16>,
    max_data_len: Option<u32>,
    valid_values: Option<Vec<Vec<u8>>>,
    valid_values_range: Option<(Vec<u8>, Vec<u8>)>,
    ttl: Option<u64>,
    pid: Option<u64>,
}

/// The characteristic as the specification sees it.
pub struct SpecCharacteristic {
    pub id: u64,
    pub accessory_id: u64,
    pub hap_type: HapType,
    pub format: Format,
    pub perms: Seq<Perm>,
    pub description: Option<Seq<char>>,
    pub event_notifications: Option<bool>,
    pub value: Seq<u8>,
    pub unit: Option<Unit>,
    pub max_value: Option<Seq<u8>>,
    pub min_value: Option<Seq<u8>>,
    pub step_value: Option<Seq<u8>>,
    pub max_len: Option<u16>,
    pub max_data_len: Option<u32>,
    pub valid_values: Option<Seq<Seq<u8>>>,
    pub valid_values_range: Option<(Seq<u8>, Seq<u8>)>,
    pub ttl: Option<u64>,
    pub pid: Option<u64>,
}

pub open spec fn bytes_opt(o: Option<Vec<u8>>) -> Option<Seq<u8>> {
    match o {
        Some(v) => Some(v@),
        None => None,
    }
}

pub open spec fn text_opt(o: Option<String>) -> Option<Seq<char>> {
    match o {
        Some(s) => Some(s@),
        None => None,
    }
}

pub open spec fn values_opt(o: Option<Vec<Vec<u8>>>) -> Option<Seq<Seq<u8>>> {
    match o {
        Some(v) => Some(v@.map_values(|x: Vec<u8>| x@)),
        None => None,
    }
}

pub open spec fn range_opt(o: Option<(Vec<u8>, Vec<u8>)>) -> Option<(Seq<u8>, Seq<u8>)> {
    match o {
        Some((a, b)) => Some((a@, b@)),
        None => None,
    }
}

impl View for SiriEndpointSessionStatusCharacteristic {
    type V = SpecCharacteristic;

    closed spec fn view(&self) -> SpecCharacteristic {
        SpecCharacteristic {
            id: self.id,
            accessory_id: self.accessory_id,
            hap_type: self.hap_type,
            format: self.format,
            perms: self.perms@,
            description: text_opt(self.description),
            event_notifications: self.event_notifications,
            value: self.value@,
            unit: self.unit,
            max_value: bytes_opt(self.max_value),
            min_value: bytes_opt(self.min_value),
            step_value: bytes_opt(self.step_value),
            max_len: self.max_len,
            max_data_len: self.max_data_len,
            valid_values: values_opt(self.valid_values),
            valid_values_range: range_opt(self.valid_values_range),
            ttl: self.ttl,
            pid: self.pid,
        }
    }
}

fn copy_bytes(v: &Vec<u8>) -> (r: Vec<u8>)
    ensures
        r@ == v@,
{
    let c = v.clone();
    assert(c@ =~= v@);
    c
}

fn copy_bytes_opt(o: &Option<Vec<u8>>) -> (r: Option<Vec<u8>>)
    ensures
        bytes_opt(r) == bytes_opt(*o),
{
    match o {
        Some(v) => Some(copy_bytes(v)),
        None => None,
    }
}

fn copy_perms(v: &Vec<Perm>) -> (r: Vec<Perm>)
    ensures
        r@ == v@,
{
    let mut r: Vec<Perm> = Vec::new();
    let mut i: usize = 0;
    while i < v.len()
        invariant
            i <= v@.len(),
            r@ == v@.take(i as int),
        decreases v@.len() - i,
    {
        r.push(v[i]);
        i = i + 1;
        assert(r@ =~= v@.take(i as int));
    }
    assert(v@.take(i as int) =~= v@);
    r
}

impl SiriEndpointSessionStatusCharacteristic {
    /// A new Siri Endpoint Session Status characteristic with instance id `id` on
    /// accessory `accessory_id`: TLV8, readable and subscribable, with an empty value
    /// (the minimum, or the first valid value, when the characteristic has one).
    pub fn new(id: u64, accessory_id: u64) -> (c: SiriEndpointSessionStatusCharacteristic)
        ensures
            c@ == (SpecCharacteristic {
                id,
                accessory_id,
                hap_type: HapType::SiriEndpointSessionStatus,
                format: Format::Tlv8,
                perms: seq![Perm::Events, Perm::PairedRead],
                description: None,
                event_notifications: None,
                value: Seq::empty(),
                unit: None,
                max_value: None,
                min_value: None,
                step_value: None,
                max_len: None,
                max_data_len: None,
                valid_values: None,
                valid_values_range: None,
                ttl: None,
                pid: None,
            }),
    {
        let mut c = SiriEndpointSessionStatusCharacteristic {
            id,
            accessory_id,
            hap_type: HapType::SiriEndpointSessionStatus,
            format: Format::Tlv8,
            perms: vec![Perm::Events, Perm::PairedRead],
            description: None,
            event_notifications: None,
            value: Vec::new(),
            unit: None,
            max_value: None,
            min_value: None,
            step_value: None,
            max_len: None,
            max_data_len: None,
            valid_values: None,
            valid_values_range: None,
            ttl: None,
            pid: None,
        };
        if let Some(min_value) = &c.min_value {
            c.value = copy_bytes(min_value);
        } else if let Some(valid_values) = &c.valid_values {
            if valid_values.len() > 0 {
                c.value = copy_bytes(&valid_values[0]);
            }
        }
        assert(c@.perms =~= seq![Perm::Events, Perm::PairedRead]);
        assert(c@.value =~= Seq::<u8>::empty());
        c
    }

    pub fn get_id(&self) -> (r: u64)
        ensures
            r == self@.id,
    {
        self.id
    }

    pub fn set_id(&mut self, id: u64)
        ensures
            final(self)@ == (SpecCharacteristic { id, ..old(self)@ }),
    {
        self.id = id;
    }

    pub fn get_accessory_id(&self) -> (r: u64)
        ensures
            r == self@.accessory_id,
    {
        self.accessory_id
    }

    pub fn get_type(&self) -> (r: HapType)
        ensures
            r == self@.hap_type,
    {
        self.hap_type
    }

    pub fn set_type(&mut self, hap_type: HapType)
        ensures
            final(self)@ == (SpecCharacteristic { hap_type, ..old(self)@ }),
    {
        self.hap_type = hap_type;
    }

    pub fn get_format(&self) -> (r: Format)
        ensures
            r == self@.format,
    {
        self.format
    }

    pub fn set_format(&mut self, format: Format)
        ensures
            final(self)@ == (SpecCharacteristic { format, ..old(self)@ }),
    {
        self.format = format;
    }

    pub fn get_perms(&self) -> (r: Vec<Perm>)
        ensures
            r@ == self@.perms,
    {
        copy_perms(&self.perms)
    }

    pub fn set_perms(&mut self, perms: Vec<Perm>)
        ensures
            final(self)@ == (SpecCharacteristic { perms: perms@, ..old(self)@ }),
    {
        self.perms = perms;
    }

    pub fn get_description(&self) -> (r: Option<String>)
        ensures
            text_opt(r) == self@.description,
    {
        match &self.description {
            Some(d) => Some(d.clone()),
            None => None,
        }
    }

    pub fn set_description(&mut self, description: Option<String>)
        ensures
            final(self)@ == (SpecCharacteristic { description: text_opt(description), ..old(self)@ }),
    {
        self.description = description;
    }

    pub fn get_event_notifications(&self) -> (r: Option<bool>)
        ensures
            r == self@.event_notifications,
    {
        self.event_notifications
    }

    pub fn set_event_notifications(&mut self, event_notifications: Option<bool>)
        ensures
            final(self)@ == (SpecCharacteristic { event_notifications, ..old(self)@ }),
    {
        self.event_notifications = event_notifications;
    }

    pub fn get_value(&self) -> (r: Vec<u8>)
        ensures
            r@ == self@.value,
    {
        copy_bytes(&self.value)
    }

    pub fn set_value(&mut self, value: Vec<u8>)
        ensures
            final(self)@ == (SpecCharacteristic { value: value@, ..old(self)@ }),
    {
        self.value = value;
    }

    pub fn get_unit(&self) -> (r: Option<Unit>)
        ensures
            r == self@.unit,
    {
        self.unit
    }

    pub fn set_unit(&mut self, unit: Option<Unit>)
        ensures
            final(self)@ == (SpecCharacteristic { unit, ..old(self)@ }),
    {
        self.unit = unit;
    }

    pub fn get_max_value(&self) -> (r: Option<Vec<u8>>)
        ensures
            bytes_opt(r) == self@.max_value,
    {
        copy_bytes_opt(&self.max_value)
    }

    pub fn set_max_value(&mut self, max_value: Option<Vec<u8>>)
        ensures
            final(self)@ == (SpecCharacteristic { max_value: bytes_opt(max_value), ..old(self)@ }),
    {
        self.max_value = max_value;
    }

    pub fn get_min_value(&self) -> (r: Option<Vec<u8>>)
        ensures
            bytes_opt(r) == self@.min_value,
    {
        copy_bytes_opt(&self.min_value)
    }

    pub fn set_min_value(&mut self, min_value: Option<Vec<u8>>)
        ensures
            final(self)@ == (SpecCharacteristic { min_value: bytes_opt(min_value), ..old(self)@ }),
    {
        self.min_value = min_value;
    }

    pub fn get_step_value(&self) -> (r: Option<Vec<u8>>)
        ensures
            bytes_opt(r) == self@.step_value,
    {
        copy_bytes_opt(&self.step_value)
    }

    pub fn set_step_value(&mut self, step_value: Option<Vec<u8>>)
        ensures
            final(self)@ == (SpecCharacteristic { step_value: bytes_opt(step_value), ..old(self)@ }),
    {
        self.step_value = step_value;
    }

    pub fn get_max_len(&self) -> (r: Option<u16>)
        ensures
            r == self@.max_len,
    {
        self.max_len
    }

    pub fn set_max_len(&mut self, max_len: Option<u16>)
        ensures
            final(self)@ == (SpecCharacteristic { max_len, ..old(self)@ }),
    {
        self.max_len = max_len;
    }

    pub fn get_max_data_len(&self) -> (r: Option<u32>)
        ensures
            r == self@.max_data_len,
    {
        self.max_data_len
    }

    pub fn set_max_data_len(&mut self, max_data_len: Option<u32>)
        ensures
            final(self)@ == (SpecCharacteristic { max_data_len, ..old(self)@ }),
    {
        self.max_data_len = max_data_len;
    }

    pub fn get_valid_values(&self) -> (r: Option<Vec<Vec<u8>>>)
        ensures
            values_opt(r) == self@.valid_values,
    {
        match &self.valid_values {
            None => None,
            Some(vs) => {
                let mut out: Vec<Vec<u8>> = Vec::new();
                let mut i: usize = 0;
                while i < vs.len()
                    invariant
                        i <= vs@.len(),
                        out@.len() == i,
                        forall|j: int| 0 <= j < i ==> #[trigger] out@[j]@ == vs@[j]@,
                    decreases vs@.len() - i,
                {
                    out.push(copy_bytes(&vs[i]));
                    i = i + 1;
                }
                assert(out@.map_values(|x: Vec<u8>| x@) =~= vs@.map_values(|x: Vec<u8>| x@));
                Some(out)
            },
        }
    }

    pub fn set_valid_values(&mut self, valid_values: Option<Vec<Vec<u8>>>)
        ensures
            final(self)@ == (SpecCharacteristic { valid_values: values_opt(valid_values), ..old(self)@ }),
    {
        self.valid_values = valid_values;
    }

    pub fn get_valid_values_range(&self) -> (r: Option<(Vec<u8>, Vec<u8>)>)
        ensures
            range_opt(r) == self@.valid_values_range,
    {
        match &self.valid_values_range {
            Some((a, b)) => Some((copy_bytes(a), copy_bytes(b))),
            None => None,
        }
    }

    pub fn set_valid_values_range(&mut self, valid_values_range: Option<(Vec<u8>, Vec<u8>)>)
        ensures
            final(self)@ == (SpecCharacteristic { valid_values_range: range_opt(valid_values_range), ..old(self)@ }),
    {
        self.valid_values_range = valid_values_range;
    }

    pub fn get_ttl(&self) -> (r: Option<u64>)
        ensures
            r == self@.ttl,
    {
        self.ttl
    }

    pub fn set_ttl(&mut self, ttl: Option<u64>)
        ensures
            final(self)@ == (SpecCharacteristic { ttl, ..old(self)@ }),
    {
        self.ttl = ttl;
    }

    pub fn get_pid(&self) -> (r: Option<u64>)
        ensures
            r == self@.pid,
    {
        self.pid
    }

    pub fn set_pid(&mut self, pid: Option<u64>)
        ensures
            final(self)@ == (SpecCharacteristic { pid, ..old(self)@ }),
    {
        self.pid = pid;
    }
}

} // verus!
