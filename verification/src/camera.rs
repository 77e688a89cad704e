//! The camera accessory: its id and the instance ids of its services.

use vstd::prelude::*;
use crate::characteristic::HapType;

verus! {

/// How many characteristics each kind of service of the camera has.
#[derive(Debug, Clone, Copy)]
pub struct ServiceSizes {
    pub information: u64,
    pub microphone: u64,
    pub stream: u64,
}

/// A camera accessory: its id, the instance ids of its accessory-information service
/// (always 1), its microphone service and its stream-management services, and whether
/// its microphone is muted.
#[derive(Debug)]
pub struct CameraAccessory {
    id: u64,
    accessory_information_id: u64,
    microphone_id: u64,
    microphone_muted: bool,
    stream_ids: Vec<u64>,
}

/// The camera as the specification sees it.
pub struct SpecCamera {
    pub id: u64,
    pub accessory_information_id: u64,
    pub microphone_id: u64,
    pub microphone_muted: bool,
    pub stream_ids: Seq<u64>,
}

impl View for CameraAccessory {
    type V = SpecCamera;

    closed spec fn view(&self) -> SpecCamera {
        SpecCamera {
            id: self.id,
            accessory_information_id: self.accessory_information_id,
            microphone_id: self.microphone_id,
            microphone_muted: self.microphone_muted,
            stream_ids: self.stream_ids@,
        }
    }
}

/// The instance id of the microphone service: the first after the information
/// service's characteristics.
pub open spec fn microphone_id(sizes: ServiceSizes) -> int {
    2 + sizes.information
}

/// The instance id of stream-management service `i`: they start three after the
/// microphone's characteristics and each takes one id and one per characteristic.
pub open spec fn stream_id(sizes: ServiceSizes, i: int) -> int {
    3 + microphone_id(sizes) + sizes.microphone + i * (1 + sizes.stream)
}

impl CameraAccessory {
    /// A camera with accessory id `id` and `streams_count` stream-management services,
    /// whose services have `sizes` characteristics, numbered one after the other. Its
    /// microphone starts unmuted.
    pub fn new(id: u64, streams_count: usize, sizes: ServiceSizes) -> (r: CameraAccessory)
        requires
            stream_id(sizes, streams_count as int) <= u64::MAX,
        ensures
            r@.id == id,
            r@.accessory_information_id == 1,
            r@.microphone_id == microphone_id(sizes),
            !r@.microphone_muted,
            r@.stream_ids.len() == streams_count,
            forall|i: int| 0 <= i < streams_count ==> r@.stream_ids[i] == stream_id(sizes, i),
    {
        proof {
            assert(0 <= streams_count * (1 + sizes.stream)) by (nonlinear_arith);
        }
        let microphone_id = 2 + sizes.information;
        let mut stream_id_next = 3 + microphone_id + sizes.microphone;
        let mut stream_ids: Vec<u64> = Vec::new();
        let mut i: usize = 0;
        while i < streams_count
            invariant
                i <= streams_count,
                microphone_id == 2 + sizes.information,
                stream_id(sizes, streams_count as int) <= u64::MAX,
                stream_id_next == stream_id(sizes, i as int),
                stream_ids@.len() == i,
                forall|j: int| 0 <= j < i ==> stream_ids@[j] == stream_id(sizes, j),
            decreases streams_count - i,
        {
            stream_ids.push(stream_id_next);
            proof {
                let k = 1 + sizes.stream;
                assert((i + 1) * k == i * k + k) by (nonlinear_arith);
                assert((i + 1) * k <= streams_count * k) by (nonlinear_arith)
                    requires
                        i + 1 <= streams_count,
                        k >= 1,
                ;
            }
            stream_id_next = stream_id_next + 1 + sizes.stream;
            i = i + 1;
        }
        CameraAccessory { id, accessory_information_id: 1, microphone_id, microphone_muted: false, stream_ids }
    }

    pub fn get_id(&self) -> (r: u64)
        ensures
            r == self@.id,
    {
        self.id
    }

    pub fn set_id(&mut self, id: u64)
        ensures
            final(self)@ == (SpecCamera { id, ..old(self)@ }),
    {
        self.id = id;
    }

    pub fn accessory_information_id(&self) -> (r: u64)
        ensures
            r == self@.accessory_information_id,
    {
        self.accessory_information_id
    }

    pub fn microphone_id(&self) -> (r: u64)
        ensures
            r == self@.microphone_id,
    {
        self.microphone_id
    }

    /// Whether the microphone is muted.
    pub fn microphone_muted(&self) -> (r: bool)
        ensures
            r == self@.microphone_muted,
    {
        self.microphone_muted
    }

    /// Mutes or unmutes the microphone.
    pub fn set_microphone_muted(&mut self, muted: bool)
        ensures
            final(self)@ == (SpecCamera { microphone_muted: muted, ..old(self)@ }),
    {
        self.microphone_muted = muted;
    }

    pub fn stream_ids(&self) -> (r: &Vec<u64>)
        ensures
            r@ == self@.stream_ids,
    {
        &self.stream_ids
    }
}

/// The services of a camera as (kind, instance id): accessory information, microphone,
/// then the stream-management services in order.
pub open spec fn spec_services(c: SpecCamera) -> Seq<(HapType, u64)> {
    seq![(HapType::AccessoryInformation, c.accessory_information_id), (HapType::Microphone, c.microphone_id)]
        + c.stream_ids.map_values(|id: u64| (HapType::CameraStreamManagement, id))
}

impl CameraAccessory {
    /// The services, as (kind, instance id), in order (see `spec_services`).
    pub fn get_services(&self) -> (r: Vec<(HapType, u64)>)
        ensures
            r@ == spec_services(self@),
    {
        let mut r: Vec<(HapType, u64)> = Vec::new();
        r.push((HapType::AccessoryInformation, self.accessory_information_id));
        r.push((HapType::Microphone, self.microphone_id));
        let mut i: usize = 0;
        while i < self.stream_ids.len()
            invariant
                i <= self.stream_ids@.len(),
                r@ == seq![(HapType::AccessoryInformation, self.accessory_information_id), (HapType::Microphone, self.microphone_id)]
                    + self.stream_ids@.take(i as int).map_values(|id: u64| (HapType::CameraStreamManagement, id)),
            decreases self.stream_ids@.len() - i,
        {
            r.push((HapType::CameraStreamManagement, self.stream_ids[i]));
            i = i + 1;
            assert(r@ =~= seq![(HapType::AccessoryInformation, self.accessory_information_id), (HapType::Microphone, self.microphone_id)]
                + self.stream_ids@.take(i as int).map_values(|id: u64| (HapType::CameraStreamManagement, id)));
        }
        assert(self.stream_ids@.take(i as int) =~= self.stream_ids@);
        r
    }

    /// The first service of kind `hap_type`, if the camera has one.
    pub fn get_service(&self, hap_type: HapType) -> (r: Option<(HapType, u64)>)
        ensures
            match r {
                Some(s) => exists|i: int|
                    0 <= i < spec_services(self@).len() && spec_services(self@)[i] == s && s.0 == hap_type
                        && forall|j: int| 0 <= j < i ==> #[trigger] spec_services(self@)[j].0 != hap_type,
                None => forall|j: int| 0 <= j < spec_services(self@).len() ==> #[trigger] spec_services(self@)[j].0 != hap_type,
            },
    {
        let services = self.get_services();
        let mut i: usize = 0;
        while i < services.len()
            invariant
                i <= services@.len(),
                services@ == spec_services(self@),
                forall|j: int| 0 <= j < i ==> #[trigger] services@[j].0 != hap_type,
            decreases services@.len() - i,
        {
            if services[i].0 == hap_type {
                return Some(services[i]);
            }
            i = i + 1;
        }
        None
    }
}

} // verus!
