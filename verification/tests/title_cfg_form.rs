use ps2_suitcase::title_cfg_form::{field_edit, field_widget, FieldHelper, FieldWidget, title_cfg_form_keys, missing_fields_message, title_cfg_form_layout, title_cfg_sections};

#[test]
fn keys_fall_into_their_sections() {
    let keys: Vec<String> = ["Custom", "boot", "title", "Notes", "Rating", "Extra", "Version"]
        .iter()
        .map(|k| k.to_string())
        .collect();
    let (grouped, additional) = title_cfg_form_layout(&keys);
    let sections = title_cfg_sections();
    assert_eq!(grouped.len(), sections.len());
    assert_eq!(sections[0].title, "Application identity");
    assert_eq!(grouped[0], vec!["title", "Version"]);
    assert_eq!(grouped[1], vec!["boot"]);
    assert_eq!(grouped[2], vec!["Notes"]);
    assert!(grouped[3].is_empty());
    assert!(grouped[4].is_empty());
    assert_eq!(grouped[5], vec!["Rating"]);
    assert_eq!(additional, vec!["Custom", "Extra"]);
}

#[test]
fn missing_fields_warning_lists_the_keys() {
    assert_eq!(
        missing_fields_message(&vec!["boot", "Version"]),
        "Missing mandatory fields: boot, Version"
    );
    assert_eq!(missing_fields_message(&vec!["title"]), "Missing mandatory fields: title");
}

#[test]
fn form_keys_add_helper_keys_once_after_the_files_own() {
    let keys: Vec<String> = vec!["title".to_string(), "Developer".to_string()];
    let helper: Vec<String> = vec![
        "boot".to_string(),
        "title".to_string(),
        "Version".to_string(),
        "boot".to_string(),
    ];
    assert_eq!(
        title_cfg_form_keys(&keys, &helper),
        vec!["title", "Developer", "boot", "Version"]
    );
    assert_eq!(title_cfg_form_keys(&Vec::new(), &Vec::new()), Vec::<String>::new());
    assert_eq!(title_cfg_form_keys(&keys, &Vec::new()), keys);
}

fn helper(values: Option<Vec<&str>>, hint: Option<&str>) -> FieldHelper {
    FieldHelper {
        tooltip: Some("Shown on hover".to_string()),
        hint: hint.map(|h| h.to_string()),
        values: values.map(|v| v.into_iter().map(|s| s.to_string()).collect()),
        char_limit: Some(32),
        multiline: Some(true),
    }
}

#[test]
fn helper_values_make_a_choice() {
    let h = helper(Some(vec!["Yes", "No"]), Some("pick one"));
    match field_widget(Some(&h), "") {
        FieldWidget::Choice { options, display_text, tooltip } => {
            assert_eq!(options, vec!["Yes", "No"]);
            assert_eq!(display_text, "pick one");
            assert_eq!(tooltip, Some("Shown on hover".to_string()));
        }
        FieldWidget::Text { .. } => panic!("expected a choice"),
    }
    match field_widget(Some(&helper(Some(vec!["Yes"]), None)), "") {
        FieldWidget::Choice { display_text, .. } => assert_eq!(display_text, "(not set)"),
        FieldWidget::Text { .. } => panic!("expected a choice"),
    }
    match field_widget(Some(&h), "No") {
        FieldWidget::Choice { display_text, .. } => assert_eq!(display_text, "No"),
        FieldWidget::Text { .. } => panic!("expected a choice"),
    }
}

#[test]
fn fields_without_values_are_text_boxes() {
    match field_widget(Some(&helper(Some(Vec::new()), Some("e.g. 1.00"))), "x") {
        FieldWidget::Text { multiline, hint, char_limit, .. } => {
            assert!(multiline);
            assert_eq!(hint, Some("e.g. 1.00".to_string()));
            assert_eq!(char_limit, Some(32));
        }
        FieldWidget::Choice { .. } => panic!("expected a text box"),
    }
    let mut negative = helper(None, None);
    negative.char_limit = Some(-1);
    negative.multiline = None;
    match field_widget(Some(&negative), "") {
        FieldWidget::Text { multiline, char_limit, .. } => {
            assert!(!multiline);
            assert_eq!(char_limit, None);
        }
        FieldWidget::Choice { .. } => panic!("expected a text box"),
    }
    match field_widget(None, "") {
        FieldWidget::Text { multiline, hint, char_limit, tooltip } => {
            assert!(!multiline);
            assert_eq!(hint, None);
            assert_eq!(char_limit, None);
            assert_eq!(tooltip, None);
        }
        FieldWidget::Choice { .. } => panic!("expected a text box"),
    }
}

#[test]
fn only_real_edits_are_stored() {
    assert_eq!(field_edit(true, "old", "new".to_string()), Some("new".to_string()));
    assert_eq!(field_edit(true, "same", "same".to_string()), None);
    assert_eq!(field_edit(false, "old", "new".to_string()), None);
}
