use mex::entry::{entry_lengths, wrap_count};
use mex::host::{dims_to_host, select_host, size_max, to_host_size, HostError, HostVariant};
use mex::text::string_from_host_buffer;

#[test]
fn entry_lengths_match_the_counts_exactly() {
    assert_eq!(entry_lengths(0, 2), (0, 2));
    assert_eq!(entry_lengths(1, 0), (1, 0));
    assert_eq!(entry_lengths(0, 0), (0, 0));
    assert_eq!(entry_lengths(3, 7), (3, 7));
}

#[test]
fn negative_counts_wrap_to_empty() {
    assert_eq!(wrap_count(-1), 0);
    assert_eq!(wrap_count(i32::MIN), 0);
    assert_eq!(entry_lengths(-1, -7), (0, 0));
    assert_eq!(wrap_count(i32::MAX), i32::MAX as usize);
}

#[test]
fn host_size_limits_differ_by_variant() {
    assert_eq!(size_max(HostVariant::Octave), u32::MAX as u64);
    assert_eq!(size_max(HostVariant::Matlab), usize::MAX as u64);
}

#[test]
fn size_conversion_is_checked_at_the_width() {
    assert_eq!(to_host_size(HostVariant::Octave, 7), Some(7));
    assert_eq!(to_host_size(HostVariant::Matlab, usize::MAX), Some(usize::MAX as u64));
    let big: usize = 5_000_000_000;
    assert_eq!(to_host_size(HostVariant::Octave, big), None);
    assert_eq!(to_host_size(HostVariant::Matlab, big), Some(big as u64));
}

#[test]
fn dimension_conversion_fails_on_any_oversized_extent() {
    let ok = dims_to_host(HostVariant::Octave, &vec![2, 3, 4]).unwrap();
    assert_eq!(ok, vec![2, 3, 4]);
    let big: usize = 5_000_000_000;
    assert!(dims_to_host(HostVariant::Octave, &vec![2, big, 4]).is_none());
    assert_eq!(dims_to_host(HostVariant::Matlab, &vec![2, big, 4]).unwrap(), vec![
        2,
        big as u64,
        4,
    ]);
}

#[test]
fn host_selection_follows_the_configuration() {
    let ml = || Some(String::from("/opt/ml/lib"));
    let oc = || Some(String::from("/usr/lib/octave"));
    assert_eq!(select_host(ml(), oc(), None), Err(HostError::BothConfigured));
    assert_eq!(
        select_host(ml(), None, None),
        Ok((HostVariant::Matlab, String::from("/opt/ml/lib")))
    );
    assert_eq!(
        select_host(None, oc(), None),
        Ok((HostVariant::Octave, String::from("/usr/lib/octave")))
    );
    assert_eq!(
        select_host(None, None, Some((HostVariant::Octave, String::from("/probed")))),
        Ok((HostVariant::Octave, String::from("/probed")))
    );
    assert_eq!(select_host(None, None, None), Err(HostError::NoneFound));
}

#[test]
fn host_buffer_text_loses_only_the_terminator() {
    let buf = vec![b'h', b'i', 0];
    assert_eq!(string_from_host_buffer(buf), "hi");
    assert_eq!(string_from_host_buffer(vec![0]), "");
}
