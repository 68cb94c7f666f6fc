use cmdc::futures::{futures_for_year, get_futures};

#[test]
fn futures_of_a_year() {
    let list = futures_for_year(2025);
    let expected: Vec<String> = [
        "winG25", "winJ25", "winM25", "winQ25", "winV25", "winZ25", "wdoF25", "wdoG25", "wdoH25",
        "wdoJ25", "wdoK25", "wdoM25", "wdoN25", "wdoQ25", "wdoU25", "wdoV25", "wdoX25", "wdoZ25",
        "bitF25", "bitG25", "bitH25", "bitJ25", "bitK25", "bitM25", "bitN25", "bitQ25", "bitU25",
        "bitV25", "bitX25", "bitZ25",
    ]
    .iter()
    .map(|s| s.to_string())
    .collect();
    assert_eq!(list, expected);
}

#[test]
fn year_suffix_is_padded() {
    assert_eq!(futures_for_year(2005)[0], "winG05");
    assert_eq!(futures_for_year(2000)[6], "wdoF00");
    assert_eq!(futures_for_year(2100)[29], "bitZ00");
    assert_eq!(futures_for_year(1999)[0], "winG99");
    assert_eq!(futures_for_year(7)[0], "winG07");
    assert_eq!(futures_for_year(0)[0], "winG00");
}

#[test]
fn year_before_zero_keeps_its_sign() {
    assert_eq!(futures_for_year(-5)[0], format!("win{}{:02}", 'G', -5 % 100));
    assert_eq!(futures_for_year(-115)[0], format!("win{}{:02}", 'G', -115 % 100));
    assert_eq!(futures_for_year(-200)[0], format!("win{}{:02}", 'G', -200 % 100));
    assert_eq!(futures_for_year(i32::MIN)[0], format!("win{}{:02}", 'G', i32::MIN % 100));
    assert_eq!(futures_for_year(i32::MAX)[0], format!("win{}{:02}", 'G', i32::MAX % 100));
}

#[test]
fn futures_of_this_year() {
    let list = get_futures();
    assert_eq!(list.len(), 30);
    let suffix = list[0].strip_prefix("winG").unwrap().to_string();
    assert_eq!(suffix.len(), 2);
    assert!(suffix.chars().all(|c| c.is_ascii_digit()));
    assert!(list.iter().all(|code| code.ends_with(&suffix)));
    assert_eq!(list.iter().filter(|c| c.starts_with("win")).count(), 6);
    assert_eq!(list.iter().filter(|c| c.starts_with("wdo")).count(), 12);
    assert_eq!(list.iter().filter(|c| c.starts_with("bit")).count(), 12);
}
