use hap::accessory_list::{
    has_perm, read_answer, read_plan, update_subscriptions, write_answer, write_plan, AccessoryList, AccessoryListError,
    STATUS_NOTIFICATION_NOT_SUPPORTED, STATUS_READ_ONLY_CHARACTERISTIC, STATUS_SUCCESS,
    STATUS_WRITE_ONLY_CHARACTERISTIC,
};
use hap::camera::{CameraAccessory, ServiceSizes};
use hap::characteristic::{Format, HapType, Perm, SiriEndpointSessionStatusCharacteristic, Unit};

#[test]
fn test_json_serialization() {
    // the list's members, walked in id order as the JSON of the list walks them
    let mut list: AccessoryList<&str, ()> = AccessoryList::new(());
    let camera = list.add_accessory("camera");
    let light = list.add_accessory("light");
    let mut accessories = Vec::new();
    for id in 1..list.next_id() {
        if let Some(member) = list.get(id) {
            let mut entry = serde_json::Map::new();
            entry.insert("aid".to_string(), serde_json::Value::from(id));
            entry.insert("name".to_string(), serde_json::Value::from(*member));
            accessories.push(serde_json::Value::Object(entry));
        }
    }
    let mut top = serde_json::Map::new();
    top.insert("accessories".to_string(), serde_json::Value::Array(accessories));
    assert_eq!((camera, light), (1, 2));
    assert_eq!(
        serde_json::to_vec(&serde_json::Value::Object(top)).unwrap(),
        b"{\"accessories\":[{\"aid\":1,\"name\":\"camera\"},{\"aid\":2,\"name\":\"light\"}]}".to_vec()
    );
}

#[test]
fn accessory_ids_count_up_and_removal() {
    let mut list: AccessoryList<String, u8> = AccessoryList::new(7);
    assert_eq!(list.next_id(), 1);
    assert_eq!(list.add_accessory("a".to_string()), 1);
    assert_eq!(list.add_accessory("b".to_string()), 2);
    assert_eq!(list.add_accessory("c".to_string()), 3);
    assert_eq!(list.remove_accessory(2).unwrap(), "b");
    assert_eq!(list.remove_accessory(2).unwrap_err(), AccessoryListError::NotFound);
    assert_eq!(list.len(), 2);
    // ids are never given twice
    assert_eq!(list.add_accessory("d".to_string()), 4);
    assert_eq!(list.get(4).unwrap(), "d");
    assert!(list.get(2).is_none());
    assert_eq!(*list.event_emitter(), 7);
}

#[test]
fn read_and_write_plans() {
    let ro = vec![Perm::PairedRead, Perm::Events];
    let wo = vec![Perm::PairedWrite];
    assert!(has_perm(&ro, Perm::Events));
    assert!(!has_perm(&wo, Perm::Events));

    let p = read_plan(&ro, true, false, true, false);
    assert!(p.read_value && p.include_meta && !p.include_perms && p.include_type && !p.include_ev);
    assert_eq!(p.status, STATUS_SUCCESS);
    let p = read_plan(&wo, true, true, true, true);
    assert!(!p.read_value && !p.include_meta);
    assert_eq!(p.status, STATUS_WRITE_ONLY_CHARACTERISTIC);

    let w = write_plan(&ro, Some(true), true);
    assert_eq!(w.set_event_notifications, Some(true));
    assert!(!w.write_value);
    assert_eq!(w.status, STATUS_READ_ONLY_CHARACTERISTIC);
    let w = write_plan(&wo, Some(false), true);
    assert_eq!(w.set_event_notifications, None);
    assert!(w.write_value);
    assert_eq!(w.status, STATUS_NOTIFICATION_NOT_SUPPORTED);
    let w = write_plan(&wo, None, true);
    assert_eq!(w.status, STATUS_SUCCESS);
}

#[test]
fn subscriptions() {
    let mut es = vec![(1u64, 10u64)];
    update_subscriptions(&mut es, (1, 11), true);
    assert_eq!(es, vec![(1, 10), (1, 11)]);
    update_subscriptions(&mut es, (1, 11), true);
    assert_eq!(es, vec![(1, 10), (1, 11)]);
    update_subscriptions(&mut es, (1, 10), false);
    assert_eq!(es, vec![(1, 11)]);
    update_subscriptions(&mut es, (9, 9), false);
    assert_eq!(es, vec![(1, 11)]);
}

#[test]
fn camera_service_ids() {
    let c = CameraAccessory::new(1, 2, ServiceSizes { information: 6, microphone: 2, stream: 7 });
    assert_eq!(c.get_id(), 1);
    assert_eq!(c.accessory_information_id(), 1);
    assert_eq!(c.microphone_id(), 8);
    assert_eq!(c.stream_ids(), &vec![13, 21]);
    assert!(!c.microphone_muted());
    let mut c = c;
    c.set_id(5);
    assert_eq!(c.get_id(), 5);
    c.set_microphone_muted(true);
    assert!(c.microphone_muted());
    assert_eq!(c.microphone_id(), 8);
    let none = CameraAccessory::new(3, 0, ServiceSizes { information: 0, microphone: 0, stream: 0 });
    assert!(none.stream_ids().is_empty());
}

#[test]
fn siri_characteristic() {
    let mut c = SiriEndpointSessionStatusCharacteristic::new(12, 1);
    assert_eq!(c.get_id(), 12);
    assert_eq!(c.get_accessory_id(), 1);
    assert_eq!(c.get_type(), HapType::SiriEndpointSessionStatus);
    assert_eq!(c.get_format(), Format::Tlv8);
    assert_eq!(c.get_perms(), vec![Perm::Events, Perm::PairedRead]);
    assert!(c.get_value().is_empty());
    assert!(c.get_valid_values().is_none());
    c.set_value(vec![1, 2]);
    assert_eq!(c.get_value(), vec![1, 2]);
    c.set_unit(Some(Unit::Seconds));
    assert_eq!(c.get_unit(), Some(Unit::Seconds));
    c.set_valid_values(Some(vec![vec![1], vec![2, 3]]));
    assert_eq!(c.get_valid_values(), Some(vec![vec![1], vec![2, 3]]));
    c.set_valid_values_range(Some((vec![0], vec![9])));
    assert_eq!(c.get_valid_values_range(), Some((vec![0], vec![9])));
    c.set_description(Some("status".to_string()));
    assert_eq!(c.get_description().as_deref(), Some("status"));
    c.set_event_notifications(Some(true));
    assert_eq!(c.get_event_notifications(), Some(true));
    c.set_max_len(Some(64));
    assert_eq!(c.get_max_len(), Some(64));
    c.set_id(13);
    assert_eq!(c.get_id(), 13);
}

#[test]
fn camera_services_in_order() {
    let c = CameraAccessory::new(1, 2, ServiceSizes { information: 6, microphone: 2, stream: 7 });
    assert_eq!(
        c.get_services(),
        vec![
            (HapType::AccessoryInformation, 1),
            (HapType::Microphone, 8),
            (HapType::CameraStreamManagement, 13),
            (HapType::CameraStreamManagement, 21),
        ]
    );
    assert_eq!(c.get_service(HapType::CameraStreamManagement), Some((HapType::CameraStreamManagement, 13)));
    assert_eq!(c.get_service(HapType::Microphone), Some((HapType::Microphone, 8)));
    assert_eq!(c.get_service(HapType::SetupEndpoint), None);
}

#[test]
fn answers_find_the_characteristic_or_default_to_success() {
    let chars = vec![(8u64, vec![Perm::PairedWrite]), (9, vec![Perm::PairedRead, Perm::Events]), (9, vec![])];
    let (pos, plan) = read_answer(&chars, 9, true, false, true, false);
    assert_eq!(pos, Some(1));
    assert!(plan.read_value && plan.include_meta && plan.include_type && !plan.include_perms);
    assert_eq!(plan.status, STATUS_SUCCESS);
    let (pos, plan) = read_answer(&chars, 8, true, true, true, true);
    assert_eq!(pos, Some(0));
    assert!(!plan.read_value);
    assert_eq!(plan.status, STATUS_WRITE_ONLY_CHARACTERISTIC);
    let (pos, plan) = read_answer(&chars, 42, true, true, true, true);
    assert_eq!(pos, None);
    assert!(!plan.read_value && !plan.include_meta);
    assert_eq!(plan.status, STATUS_SUCCESS);
    let (pos, plan) = read_answer(&Vec::new(), 1, false, false, false, false);
    assert_eq!(pos, None);
    assert_eq!(plan.status, STATUS_SUCCESS);

    let (pos, plan) = write_answer(&chars, 9, Some(true), true);
    assert_eq!(pos, Some(1));
    assert_eq!(plan.set_event_notifications, Some(true));
    assert!(!plan.write_value);
    assert_eq!(plan.status, STATUS_READ_ONLY_CHARACTERISTIC);
    let (pos, plan) = write_answer(&chars, 7, Some(true), true);
    assert_eq!(pos, None);
    assert_eq!(plan.set_event_notifications, None);
    assert!(!plan.write_value);
    assert_eq!(plan.status, STATUS_SUCCESS);
}
