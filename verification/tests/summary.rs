use ps2_suitcase::project::{
    current_strategy_title, recommended_timestamp_strategy, PackForm, TimestampStrategy,
};
use ps2_suitcase::psu::{PSUEntry, PSUEntryKind, PsuTimestamp, PSU};
use ps2_suitcase::summary::{
    availability_text, current_strategy_reason, format_timestamp, project_name_text,
};

fn ts(year: i32, month0: u32, day: u32, hour: u32, minute: u32, second: u32) -> PsuTimestamp {
    PsuTimestamp { year, month0, day, hour, minute, second }
}

#[test]
fn timestamps_are_formatted_like_a_calendar() {
    assert_eq!(format_timestamp(ts(2024, 0, 2, 3, 4, 5)), "2024-01-02 03:04:05");
    assert_eq!(format_timestamp(ts(987, 11, 31, 23, 59, 58)), "0987-12-31 23:59:58");
    assert_eq!(format_timestamp(ts(12345, 5, 6, 7, 8, 9)), "+12345-06-06 07:08:09");
    assert_eq!(format_timestamp(ts(-44, 2, 15, 12, 0, 0)), "-0044-03-15 12:00:00");
}

#[test]
fn strategy_reasons_name_their_timestamp() {
    let source = ts(2024, 0, 2, 3, 4, 5);
    assert_eq!(
        current_strategy_reason(TimestampStrategy::InheritSource, Some(source), None, None, "APP_X"),
        "the loaded source provided 2024-01-02 03:04:05 to preserve"
    );
    assert_eq!(
        current_strategy_reason(TimestampStrategy::InheritSource, None, None, None, "APP_X"),
        "no source timestamp was found to inherit"
    );
    let planned = ts(2009, 0, 1, 0, 0, 2);
    assert_eq!(
        current_strategy_reason(TimestampStrategy::SasRules, None, Some(planned), None, "APP_TEST"),
        "SAS rules computed 2009-01-01 00:00:02 for APP_TEST"
    );
    assert_eq!(
        current_strategy_reason(TimestampStrategy::SasRules, None, None, None, "APP_TEST"),
        "automatic SAS rules could not determine a timestamp"
    );
    let manual = ts(2024, 4, 6, 7, 13, 9);
    assert_eq!(
        current_strategy_reason(TimestampStrategy::Manual, None, None, Some(manual), ""),
        "you entered 2024-05-06 07:13:09"
    );
    assert_eq!(
        current_strategy_reason(TimestampStrategy::Manual, None, None, None, ""),
        "a manual timestamp is required until other data is provided"
    );
    assert_eq!(
        current_strategy_reason(TimestampStrategy::NoTimestamp, Some(source), None, None, ""),
        "timestamps are intentionally omitted from the archive"
    );
}

#[test]
fn availability_and_project_name_texts() {
    assert_eq!(availability_text(Some(ts(2000, 0, 1, 0, 0, 0)), "yes", "no"), "yes");
    assert_eq!(availability_text(None, "yes", "no"), "no");
    assert_eq!(project_name_text("   "), "not set");
    assert_eq!(project_name_text("APP_TEST"), "APP_TEST");
}

#[test]
fn archive_listing_is_a_padded_table() {
    let created = ts(2024, 0, 2, 3, 4, 5);
    let mut psu = PSU::new();
    psu.add_defaults("APP_TEST", created);
    psu.entries.push(PSUEntry {
        id: 0x8497,
        size: 1234,
        created,
        sector: 0,
        modified: ts(2024, 0, 2, 3, 4, 7),
        name: "A_VERY_LONG_FILE_NAME.BIN".to_string(),
        kind: PSUEntryKind::File,
        contents: Some(vec![0; 4]),
    });
    let mut expected = format!(
        "{:12}| {:16}| {:9}| {:25}| {:25}",
        "Type", "Name", "Size", "Created", "Modified"
    );
    expected = format!("{}\n{:-<99}", expected, "");
    for (kind, name, size, modified) in [
        ("directory", "APP_TEST", 2u32, "2024-01-02 03:04:05"),
        ("directory", ".", 0, "2024-01-02 03:04:05"),
        ("directory", "..", 0, "2024-01-02 03:04:05"),
        ("file", "A_VERY_LONG_FILE_NAME.BIN", 1234, "2024-01-02 03:04:07"),
    ] {
        expected = format!(
            "{}\n{:12}| {:16}| {:9}| {:25}| {:25}",
            expected, kind, name, size, "2024-01-02 03:04:05", modified
        );
    }
    assert_eq!(psu.listing_text(), expected);
}

/// The summary line that the timestamp section shows for a form.
fn currently_using(app: &PackForm, planned: Option<PsuTimestamp>, project_name: &str) -> String {
    format!(
        "Currently using: {} because {}.",
        current_strategy_title(app.timestamp_strategy),
        current_strategy_reason(
            app.timestamp_strategy,
            app.source_timestamp,
            planned,
            app.manual_timestamp,
            project_name,
        )
    )
}

#[test]
fn summary_references_source_when_inheriting() {
    let mut app = PackForm::default();
    let source = ts(2024, 0, 2, 3, 4, 5);
    app.source_timestamp = Some(source);
    app.timestamp_strategy = TimestampStrategy::InheritSource;
    app.refresh_timestamp_from_strategy(None);

    assert_eq!(current_strategy_title(TimestampStrategy::NoTimestamp), "No timestamp");
    assert_eq!(
        format!(
            "Source timestamp ({})",
            availability_text(app.source_timestamp, "available", "unavailable")
        ),
        "Source timestamp (available)"
    );
    assert_eq!(
        currently_using(&app, None, "APP_X"),
        "Currently using: Inherited source timestamp because the loaded source provided 2024-01-02 03:04:05 to preserve."
    );
    assert_eq!(
        recommended_timestamp_strategy(app.source_timestamp, None),
        Some(TimestampStrategy::InheritSource)
    );
}

#[test]
fn summary_references_planned_when_using_sas_rules() {
    let mut app = PackForm::default();
    app.source_timestamp = None;
    app.selected_prefix = ps2_suitcase::project::SasPrefix::App;
    app.folder_base_name = "TEST".to_string();
    app.timestamp_strategy = TimestampStrategy::SasRules;
    let planned = ts(2009, 0, 1, 0, 0, 2);
    app.refresh_timestamp_from_strategy(Some(planned));
    assert_eq!(app.timestamp, Some(planned));

    let rendered = format!(
        "Project name ({}) and timestamp rules (planned value {})",
        project_name_text("APP_TEST"),
        availability_text(Some(planned), "available", "unavailable")
    );
    assert!(rendered.contains("Project name (APP_TEST)"));
    assert!(rendered.contains("planned value available"));
    assert!(currently_using(&app, Some(planned), "APP_TEST")
        .contains("SAS rules timestamp because SAS rules computed"));
    assert_eq!(
        recommended_timestamp_strategy(None, Some(planned)),
        Some(TimestampStrategy::SasRules)
    );
}

#[test]
fn manual_summary_updates_after_manual_timestamp_change() {
    let mut app = PackForm::default();
    app.source_timestamp = None;
    app.timestamp_strategy = TimestampStrategy::Manual;
    app.manual_timestamp = Some(ts(2024, 4, 6, 7, 8, 9));
    app.refresh_timestamp_from_strategy(None);
    assert_eq!(
        currently_using(&app, None, ""),
        "Currently using: Manual timestamp because you entered 2024-05-06 07:08:09."
    );

    app.manual_timestamp = Some(ts(2024, 4, 6, 7, 13, 9));
    app.refresh_timestamp_from_strategy(None);
    assert_eq!(app.timestamp, Some(ts(2024, 4, 6, 7, 13, 9)));
    assert_eq!(
        currently_using(&app, None, ""),
        "Currently using: Manual timestamp because you entered 2024-05-06 07:13:09."
    );
}
