use heard_browser::heard::{
    get_file_heard, heard_attr_bytes, next_heard, AttrRead, HEARD_ATTRIBUTE,
};

#[test]
fn failed_or_absent_read_is_not_heard() {
    assert!(!get_file_heard(&AttrRead::Failed));
    assert!(!get_file_heard(&AttrRead::Absent));
}

#[test]
fn first_byte_one_is_heard() {
    assert!(get_file_heard(&AttrRead::Present(vec![1])));
    assert!(get_file_heard(&AttrRead::Present(vec![1, 0, 7])));
}

#[test]
fn any_other_value_is_not_heard() {
    assert!(!get_file_heard(&AttrRead::Present(vec![])));
    assert!(!get_file_heard(&AttrRead::Present(vec![0])));
    assert!(!get_file_heard(&AttrRead::Present(vec![2])));
    assert!(!get_file_heard(&AttrRead::Present(vec![0, 1])));
    assert!(!get_file_heard(&AttrRead::Present(vec![255])));
}

#[test]
fn flag_is_stored_as_one_byte() {
    assert_eq!(heard_attr_bytes(true), vec![1u8]);
    assert_eq!(heard_attr_bytes(false), vec![0u8]);
}

#[test]
fn stored_flag_reads_back() {
    assert!(get_file_heard(&AttrRead::Present(heard_attr_bytes(true))));
    assert!(!get_file_heard(&AttrRead::Present(heard_attr_bytes(false))));
}

#[test]
fn explicit_value_wins() {
    assert!(next_heard(false, Some(true)));
    assert!(next_heard(true, Some(true)));
    assert!(!next_heard(false, Some(false)));
    assert!(!next_heard(true, Some(false)));
}

#[test]
fn no_explicit_value_flips() {
    assert!(next_heard(false, None));
    assert!(!next_heard(true, None));
}

#[test]
fn double_toggle_restores_the_flag() {
    assert!(next_heard(next_heard(true, None), None));
    assert!(!next_heard(next_heard(false, None), None));
}

#[test]
fn flag_is_kept_under_a_user_attribute() {
    assert_eq!(HEARD_ATTRIBUTE, "user.heard");
}
