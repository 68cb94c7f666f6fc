use cmdc::daily::{daily_names, first_stage, next_stage, Stage, CONTENT_DIR, RESOURCES_DIR};
use cmdc::text::{decimal_text, signed_decimal_text, two_digit_text};

#[test]
fn names_of_a_year() {
    let n = daily_names(2025);
    assert_eq!(
        n.quotes_url,
        "https://bvmf.bmfbovespa.com.br/InstDados/SerHist/COTAHIST_A2025.ZIP"
    );
    assert_eq!(n.quotes_archive, "COTAHIST_A2025.ZIP");
    assert_eq!(n.quotes_text, "COTAHIST_A2025.TXT");
    assert_eq!(n.assets_file, "assets-2025.txt");
    assert_eq!(RESOURCES_DIR, "./resources");
    assert_eq!(CONTENT_DIR, "./content");
}

#[test]
fn names_of_an_odd_year() {
    assert_eq!(daily_names(-44).assets_file, format!("assets-{}.txt", -44));
    assert_eq!(daily_names(12345).quotes_text, "COTAHIST_A12345.TXT");
    assert_eq!(daily_names(0).quotes_archive, "COTAHIST_A0.ZIP");
}

#[test]
fn stages_in_order() {
    let mut stage = first_stage();
    let mut seen = vec![stage];
    while stage != Stage::Finished {
        stage = next_stage(stage, true);
        seen.push(stage);
    }
    assert_eq!(
        seen,
        vec![
            Stage::MakeResources,
            Stage::MakeContent,
            Stage::Download,
            Stage::Unpack,
            Stage::ExtractAssets,
            Stage::ResolveSecrets,
            Stage::ReadAssets,
            Stage::Collect,
            Stage::Finished,
        ]
    );
    assert_eq!(next_stage(Stage::Finished, true), Stage::Finished);
    assert_eq!(next_stage(Stage::Finished, false), Stage::Finished);
}

#[test]
fn a_failed_stage_ends_the_run() {
    for stage in [
        Stage::MakeResources,
        Stage::MakeContent,
        Stage::Download,
        Stage::Unpack,
        Stage::ExtractAssets,
        Stage::ResolveSecrets,
        Stage::ReadAssets,
        Stage::Collect,
    ] {
        assert_eq!(next_stage(stage, false), Stage::Failed);
    }
    assert_eq!(next_stage(Stage::Failed, true), Stage::Failed);
    assert_eq!(next_stage(Stage::Failed, false), Stage::Failed);
}

#[test]
fn decimal_numerals() {
    assert_eq!(decimal_text(0), "0");
    assert_eq!(decimal_text(9), "9");
    assert_eq!(decimal_text(10), "10");
    assert_eq!(decimal_text(1234567890), "1234567890");
    assert_eq!(decimal_text(u64::MAX), u64::MAX.to_string());
    assert_eq!(two_digit_text(0), "00");
    assert_eq!(two_digit_text(7), "07");
    assert_eq!(two_digit_text(42), "42");
    assert_eq!(two_digit_text(123), "123");
    assert_eq!(signed_decimal_text(0), "0");
    assert_eq!(signed_decimal_text(-1), "-1");
    assert_eq!(signed_decimal_text(2025), "2025");
    assert_eq!(signed_decimal_text(i32::MIN), i32::MIN.to_string());
    assert_eq!(signed_decimal_text(i32::MAX), i32::MAX.to_string());
}
