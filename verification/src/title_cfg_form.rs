//! How the editor lays out a title.cfg as a form: its keys grouped into
//! sections, and the warning about missing keys.
use vstd::prelude::*;
use crate::text::{chars_eq, chars_of, str_eq, string_push_str};

verus! {

/// The form's sections: a heading and the keys shown under it.
pub open spec fn form_sections() -> Seq<(Seq<char>, Seq<Seq<char>>)> {
    seq![
        ("Application identity"@, seq!["title"@, "Title"@, "Version"@, "Release"@, "Developer"@, "Genre"@]),
        ("Boot configuration"@, seq!["boot"@, "CfgVersion"@, "$ConfigSource"@, "source"@]),
        ("Description"@, seq!["Description"@, "Notes"@]),
        ("Presentation"@, seq![
            "Parental"@, "ParentalText"@, "Vmode"@, "VmodeText"@, "Aspect"@, "AspectText"@,
            "Scan"@, "ScanText"@,
        ]),
        ("Players and devices"@, seq!["Players"@, "PlayersText"@, "Device"@, "DeviceText"@]),
        ("Ratings"@, seq!["Rating"@, "RatingText"@]),
    ]
}

/// A form section as the executable table holds it.
pub struct FormSection {
    pub title: &'static str,
    pub keys: Vec<&'static str>,
}

pub open spec fn sections_view(v: Seq<FormSection>) -> Seq<(Seq<char>, Seq<Seq<char>>)> {
    v.map_values(|s: FormSection| (s.title@, s.keys@.map_values(|k: &'static str| k@)))
}

/// The form's sections, in order.
pub fn title_cfg_sections() -> (v: Vec<FormSection>)
    ensures
        sections_view(v@) == form_sections(),
{
    let v = vec![
        FormSection {
            title: "Application identity",
            keys: vec!["title", "Title", "Version", "Release", "Developer", "Genre"],
        },
        FormSection { title: "Boot configuration", keys: vec!["boot", "CfgVersion", "$ConfigSource", "source"] },
        FormSection { title: "Description", keys: vec!["Description", "Notes"] },
        FormSection {
            title: "Presentation",
            keys: vec![
                "Parental",
                "ParentalText",
                "Vmode",
                "VmodeText",
                "Aspect",
                "AspectText",
                "Scan",
                "ScanText",
            ],
        },
        FormSection { title: "Players and devices", keys: vec!["Players", "PlayersText", "Device", "DeviceText"] },
        FormSection { title: "Ratings", keys: vec!["Rating", "RatingText"] },
    ];
    proof {
        assert(v@[0].keys@.map_values(|k: &'static str| k@) =~= form_sections()[0].1);
        assert(v@[1].keys@.map_values(|k: &'static str| k@) =~= form_sections()[1].1);
        assert(v@[2].keys@.map_values(|k: &'static str| k@) =~= form_sections()[2].1);
        assert(v@[3].keys@.map_values(|k: &'static str| k@) =~= form_sections()[3].1);
        assert(v@[4].keys@.map_values(|k: &'static str| k@) =~= form_sections()[4].1);
        assert(v@[5].keys@.map_values(|k: &'static str| k@) =~= form_sections()[5].1);
        assert(sections_view(v@) =~= form_sections());
    }
    v
}

/// The section a key is shown under: the last section that lists it; none
/// for a key no section lists.
pub open spec fn section_of(sections: Seq<(Seq<char>, Seq<Seq<char>>)>, key: Seq<char>) -> Option<
    int,
>
    decreases sections.len(),
{
    if sections.len() == 0 {
        None
    } else if sections.last().1.contains(key) {
        Some(sections.len() - 1)
    } else {
        section_of(sections.drop_last(), key)
    }
}

/// The keys, in order, that fall under the section `index`, or under none
/// when `index` is `None`.
pub open spec fn keys_under(keys: Seq<Seq<char>>, index: Option<int>) -> Seq<Seq<char>>
    decreases keys.len(),
{
    if keys.len() == 0 {
        Seq::empty()
    } else if section_of(form_sections(), keys.last()) == index {
        keys_under(keys.drop_last(), index).push(keys.last())
    } else {
        keys_under(keys.drop_last(), index)
    }
}

proof fn lemma_section_bounds(sections: Seq<(Seq<char>, Seq<Seq<char>>)>, key: Seq<char>)
    ensures
        section_of(sections, key) matches Some(i) ==> 0 <= i < sections.len(),
    decreases sections.len(),
{
    if sections.len() > 0 {
        lemma_section_bounds(sections.drop_last(), key);
    }
}

fn list_has(keys: &Vec<&'static str>, key: &str) -> (r: bool)
    ensures
        r == keys@.map_values(|k: &'static str| k@).contains(key@),
{
    let ghost v = keys@.map_values(|k: &'static str| k@);
    let target = chars_of(key);
    let mut i: usize = 0;
    while i < keys.len()
        invariant
            i <= keys@.len(),
            v == keys@.map_values(|k: &'static str| k@),
            target@ == key@,
            forall|j: int| 0 <= j < i ==> v[j] != key@,
        decreases keys.len() - i,
    {
        if chars_eq(chars_of(keys[i]).as_slice(), target.as_slice()) {
            assert(v[i as int] == key@);
            return true;
        }
        i = i + 1;
    }
    false
}

fn section_index(sections: &Vec<FormSection>, key: &str) -> (r: Option<usize>)
    requires
        sections_view(sections@) == form_sections(),
    ensures
        match r {
            Some(i) => section_of(form_sections(), key@) == Some(i as int),
            None => section_of(form_sections(), key@) is None,
        },
{
    let ghost sv = sections_view(sections@);
    let mut n: usize = sections.len();
    assert(sv.take(n as int) =~= sv);
    while n > 0
        invariant
            n <= sections@.len(),
            sv == sections_view(sections@),
            sv == form_sections(),
            section_of(sv, key@) == section_of(sv.take(n as int), key@),
        decreases n,
    {
        assert(sv.take(n as int).drop_last() =~= sv.take(n - 1));
        assert(sv.take(n as int).last() == sv[n - 1]);
        if list_has(&sections[n - 1].keys, key) {
            return Some(n - 1);
        }
        n = n - 1;
    }
    assert(sv.take(0) =~= Seq::<(Seq<char>, Seq<Seq<char>>)>::empty());
    None
}

/// The form's layout for the given keys: per section, the keys it shows,
/// and then the keys no section lists, each list in the keys' order.
pub fn title_cfg_form_layout(keys: &Vec<String>) -> (r: (Vec<Vec<String>>, Vec<String>))
    ensures
        r.0@.len() == form_sections().len(),
        forall|i: int|
            0 <= i < r.0@.len() ==> (#[trigger] r.0@[i])@.map_values(|s: String| s@) == keys_under(
                keys@.map_values(|s: String| s@),
                Some(i),
            ),
        r.1@.map_values(|s: String| s@) == keys_under(keys@.map_values(|s: String| s@), None),
{
    let sections = title_cfg_sections();
    let ghost kv = keys@.map_values(|s: String| s@);
    let mut grouped: Vec<Vec<String>> = Vec::new();
    let mut additional: Vec<String> = Vec::new();
    let mut s: usize = 0;
    assert(sections_view(sections@).len() == sections@.len());
    assert(form_sections().len() == 6);
    while s <= sections.len()
        invariant
            sections_view(sections@) == form_sections(),
            sections@.len() == 6,
            s <= sections@.len() + 1,
            kv == keys@.map_values(|x: String| x@),
            grouped@.len() == if s <= sections@.len() { s as int } else { sections@.len() as int },
            forall|i: int|
                0 <= i < grouped@.len() ==> (#[trigger] grouped@[i])@.map_values(|x: String| x@)
                    == keys_under(kv, Some(i)),
            s > sections@.len() ==> additional@.map_values(|x: String| x@) == keys_under(
                kv,
                None,
            ),
        decreases sections.len() + 1 - s,
    {
        let target: Option<usize> = if s < sections.len() {
            Some(s)
        } else {
            None
        };
        let ghost tspec: Option<int> = match target {
            Some(t) => Some(t as int),
            None => None,
        };
        let mut picked: Vec<String> = Vec::new();
        let mut k: usize = 0;
        while k < keys.len()
            invariant
                sections_view(sections@) == form_sections(),
                k <= keys@.len(),
                kv == keys@.map_values(|x: String| x@),
                tspec == match target {
                    Some(t) => Some(t as int),
                    None => None::<int>,
                },
                picked@.map_values(|x: String| x@) == keys_under(kv.take(k as int), tspec),
            decreases keys.len() - k,
        {
            assert(kv.take(k + 1).drop_last() =~= kv.take(k as int));
            assert(kv.take(k + 1).last() == keys@[k as int]@);
            let idx = section_index(&sections, keys[k].as_str());
            let matches = match (idx, target) {
                (Some(a), Some(b)) => a == b,
                (None, None) => true,
                _ => false,
            };
            if matches {
                let ghost before = picked@;
                picked.push(keys[k].clone());
                assert(picked@.map_values(|x: String| x@) =~= before.map_values(|x: String| x@).push(
                    keys@[k as int]@,
                ));
            }
            k = k + 1;
        }
        assert(kv.take(k as int) =~= kv);
        if s < sections.len() {
            grouped.push(picked);
        } else {
            additional = picked;
        }
        s = s + 1;
    }
    (grouped, additional)
}

/// The keys the form shows: the file's keys in their order, then each key
/// of the helper table that is not shown yet, in the helper's order.
pub open spec fn merged_form_keys(keys: Seq<Seq<char>>, helper: Seq<Seq<char>>) -> Seq<Seq<char>>
    decreases helper.len(),
{
    if helper.len() == 0 {
        keys
    } else {
        let shown = merged_form_keys(keys, helper.drop_last());
        if shown.contains(helper.last()) {
            shown
        } else {
            shown.push(helper.last())
        }
    }
}

fn shows_key(shown: &Vec<String>, key: &String) -> (r: bool)
    ensures
        r == shown@.map_values(|s: String| s@).contains(key@),
{
    let ghost v = shown@.map_values(|s: String| s@);
    let mut i: usize = 0;
    while i < shown.len()
        invariant
            i <= shown@.len(),
            v == shown@.map_values(|s: String| s@),
            forall|j: int| 0 <= j < i ==> v[j] != key@,
        decreases shown.len() - i,
    {
        if str_eq(shown[i].as_str(), key.as_str()) {
            assert(v[i as int] == key@);
            return true;
        }
        i = i + 1;
    }
    false
}

/// The keys of a title.cfg form: those of the file, followed by the keys of
/// the helper table that the file does not have.
pub fn title_cfg_form_keys(keys: &Vec<String>, helper_keys: &Vec<String>) -> (r: Vec<String>)
    ensures
        r@.map_values(|s: String| s@) == merged_form_keys(
            keys@.map_values(|s: String| s@),
            helper_keys@.map_values(|s: String| s@),
        ),
{
    let ghost kv = keys@.map_values(|s: String| s@);
    let ghost hv = helper_keys@.map_values(|s: String| s@);
    let mut shown: Vec<String> = Vec::new();
    let mut i: usize = 0;
    while i < keys.len()
        invariant
            i <= keys@.len(),
            kv == keys@.map_values(|s: String| s@),
            shown@.map_values(|s: String| s@) == kv.take(i as int),
        decreases keys.len() - i,
    {
        let ghost before = shown@;
        shown.push(keys[i].clone());
        assert(shown@.map_values(|s: String| s@) =~= before.map_values(|s: String| s@).push(
            keys@[i as int]@,
        ));
        assert(kv.take(i + 1) =~= kv.take(i as int).push(kv[i as int]));
        i = i + 1;
    }
    assert(kv.take(i as int) =~= kv);
    assert(hv.take(0) =~= Seq::<Seq<char>>::empty());
    let mut j: usize = 0;
    while j < helper_keys.len()
        invariant
            j <= helper_keys@.len(),
            kv == keys@.map_values(|s: String| s@),
            hv == helper_keys@.map_values(|s: String| s@),
            shown@.map_values(|s: String| s@) == merged_form_keys(kv, hv.take(j as int)),
        decreases helper_keys.len() - j,
    {
        assert(hv.take(j + 1).drop_last() =~= hv.take(j as int));
        assert(hv.take(j + 1).last() == helper_keys@[j as int]@);
        if !shows_key(&shown, &helper_keys[j]) {
            let ghost before = shown@;
            shown.push(helper_keys[j].clone());
            assert(shown@.map_values(|s: String| s@) =~= before.map_values(|s: String| s@).push(
                helper_keys@[j as int]@,
            ));
        }
        j = j + 1;
    }
    assert(hv.take(j as int) =~= hv);
    shown
}

/// What the helper table says of one title.cfg field: the strings of its
/// `tooltip`, `hint` and `values` entries, its `char_limit` and its
/// `multiline` switch, each absent when the table lacks it.
pub struct FieldHelper {
    pub tooltip: Option<String>,
    pub hint: Option<String>,
    pub values: Option<Vec<String>>,
    pub char_limit: Option<i64>,
    pub multiline: Option<bool>,
}

/// How the form edits a field.
pub enum FieldWidget {
    /// A choice among the listed values (or none); `display_text` is what
    /// the closed choice shows.
    Choice { options: Vec<String>, display_text: String, tooltip: Option<String> },
    /// A text box, on several rows when `multiline`, with an optional hint
    /// and length limit.
    Text {
        multiline: bool,
        hint: Option<String>,
        char_limit: Option<u64>,
        tooltip: Option<String>,
    },
}

/// An optional text by its characters.
pub open spec fn opt_string_view(o: Option<String>) -> Option<Seq<char>> {
    match o {
        Some(s) => Some(s@),
        None => None,
    }
}

/// The listed values of a helper, when it lists at least one.
pub open spec fn helper_options(helper: Option<FieldHelper>) -> Option<Seq<Seq<char>>> {
    match helper {
        Some(h) => match h.values {
            Some(v) => if v@.len() > 0 {
                Some(v@.map_values(|s: String| s@))
            } else {
                None
            },
            None => None,
        },
        None => None,
    }
}

/// The widget for a field whose current value is `value`: a choice when
/// the helper lists values, showing the value, else the hint, else
/// `(not set)`; otherwise a text box, multi-line only when the helper says
/// so, limited only by a non-negative `char_limit`.
pub open spec fn spec_field_widget(
    helper: Option<FieldHelper>,
    value: Seq<char>,
    w: FieldWidget,
) -> bool {
    let hint = match helper {
        Some(h) => opt_string_view(h.hint),
        None => None,
    };
    let tooltip = match helper {
        Some(h) => opt_string_view(h.tooltip),
        None => None,
    };
    match helper_options(helper) {
        Some(options) => w matches FieldWidget::Choice { options: o, display_text: d, tooltip: t }
            && o@.map_values(|s: String| s@) == options && opt_string_view(t) == tooltip
            && d@ == (if value.len() > 0 {
            value
        } else {
            match hint {
                Some(x) => x,
                None => "(not set)"@,
            }
        }),
        None => w matches FieldWidget::Text { multiline: m, hint: h, char_limit: c, tooltip: t }
            && opt_string_view(h) == hint && opt_string_view(t) == tooltip && m == (match helper {
            Some(x) => x.multiline == Some(true),
            None => false,
        }) && c == (match helper {
            Some(x) => match x.char_limit {
                Some(n) => if n >= 0 {
                    Some(n as u64)
                } else {
                    None
                },
                None => None,
            },
            None => None,
        }),
    }
}

fn copy_strings(v: &Vec<String>) -> (r: Vec<String>)
    ensures
        r@.map_values(|s: String| s@) == v@.map_values(|s: String| s@),
{
    let mut r: Vec<String> = Vec::new();
    let mut i: usize = 0;
    while i < v.len()
        invariant
            i <= v@.len(),
            r@.map_values(|s: String| s@) == v@.map_values(|s: String| s@).take(i as int),
        decreases v.len() - i,
    {
        let ghost before = r@;
        r.push(v[i].clone());
        assert(r@.map_values(|s: String| s@) =~= before.map_values(|s: String| s@).push(v@[i as int]@));
        assert(v@.map_values(|s: String| s@).take(i + 1) =~= v@.map_values(|s: String| s@).take(
            i as int,
        ).push(v@[i as int]@));
        i = i + 1;
    }
    assert(v@.map_values(|s: String| s@).take(i as int) =~= v@.map_values(|s: String| s@));
    r
}

fn copy_opt(o: &Option<String>) -> (r: Option<String>)
    ensures
        opt_string_view(r) == opt_string_view(*o),
{
    match o {
        Some(s) => Some(s.clone()),
        None => None,
    }
}

/// The widget the form uses for a field with the given helper entry and
/// current value.
pub fn field_widget(helper: Option<&FieldHelper>, value: &str) -> (w: FieldWidget)
    ensures
        spec_field_widget(
            match helper {
                Some(h) => Some(*h),
                None => None,
            },
            value@,
            w,
        ),
{
    match helper {
        Some(h) => {
            let tooltip = copy_opt(&h.tooltip);
            let listed = match &h.values {
                Some(v) => v.len() > 0,
                None => false,
            };
            if listed {
                let options = match &h.values {
                    Some(v) => copy_strings(v),
                    None => Vec::new(),
                };
                let display_text = if value.unicode_len() > 0 {
                    value.to_owned()
                } else {
                    match &h.hint {
                        Some(x) => x.clone(),
                        None => "(not set)".to_owned(),
                    }
                };
                FieldWidget::Choice { options, display_text, tooltip }
            } else {
                let char_limit = match h.char_limit {
                    Some(n) => if n >= 0 {
                        Some(n as u64)
                    } else {
                        None
                    },
                    None => None,
                };
                let multiline = match h.multiline {
                    Some(m) => m,
                    None => false,
                };
                FieldWidget::Text { multiline, hint: copy_opt(&h.hint), char_limit, tooltip }
            }
        },
        None => FieldWidget::Text { multiline: false, hint: None, char_limit: None, tooltip: None },
    }
}

/// The value to store after the user edited a field, if any: only while
/// editing is enabled and only when the value differs from the one stored.
pub fn field_edit(editing_enabled: bool, existing: &str, new_value: String) -> (r: Option<String>)
    ensures
        r matches Some(v) <==> editing_enabled && new_value@ != existing@,
        r matches Some(v) ==> v@ == new_value@,
{
    if editing_enabled && !str_eq(new_value.as_str(), existing) {
        Some(new_value)
    } else {
        None
    }
}

/// The warning shown above a form whose title.cfg lacks mandatory keys.
pub fn missing_fields_message(missing: &Vec<&'static str>) -> (r: String)
    ensures
        r@ == "Missing mandatory fields: "@ + joined_keys(missing@.map_values(|k: &'static str| k@)),
{
    let ghost v = missing@.map_values(|k: &'static str| k@);
    let mut s = "Missing mandatory fields: ".to_owned();
    let ghost head = s@;
    let mut i: usize = 0;
    while i < missing.len()
        invariant
            i <= missing@.len(),
            v == missing@.map_values(|k: &'static str| k@),
            s@ == head + joined_keys(v.take(i as int)),
        decreases missing.len() - i,
    {
        assert(v.take(i + 1).drop_last() =~= v.take(i as int));
        assert(v.take(i + 1).last() == missing@[i as int]@);
        if i > 0 {
            string_push_str(&mut s, ", ");
        }
        string_push_str(&mut s, missing[i]);
        proof {
            if i == 0 {
                assert(v.take(1) =~= seq![missing@[0]@]);
            }
            assert(s@ =~= head + joined_keys(v.take(i + 1)));
        }
        i = i + 1;
    }
    assert(v.take(i as int) =~= v);
    s
}

/// Keys joined with `, `.
pub open spec fn joined_keys(keys: Seq<Seq<char>>) -> Seq<char>
    decreases keys.len(),
{
    if keys.len() == 0 {
        Seq::empty()
    } else if keys.len() == 1 {
        keys[0]
    } else {
        joined_keys(keys.drop_last()) + ", "@ + keys.last()
    }
}

} // verus!
