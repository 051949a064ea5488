//! Rules that give a save folder a deterministic timestamp from its name:
//! folders are grouped into prefix categories (`APP_`, `SYS_`, ...), each
//! category owns a block of time slots, and aliases map bare names onto a
//! category.
use vstd::prelude::*;
use crate::text::{
    chars_of, chars_eq, string_from_chars, trim_chars, upper_chars, starts_with_chars,
    remove_char_chars, trim_spec, ascii_upper, upper_char, remove_char, decimal, decimal_string,
    string_push_str,
};

verus! {

/// A category key and the aliases it supports out of the box.
pub struct CanonicalCategoryAliases {
    pub key: &'static str,
    pub aliases: Vec<&'static str>,
}

/// The built-in categories in priority order, each with its aliases.
pub open spec fn canonical_table() -> Seq<(Seq<char>, Seq<Seq<char>>)> {
    seq![
        ("APP_"@, seq!["OSDXMB"@, "XEBPLUS"@]),
        ("APPS"@, seq![]),
        ("PS1_"@, seq![]),
        ("EMU_"@, seq![]),
        ("GME_"@, seq![]),
        ("DST_"@, seq![]),
        ("DBG_"@, seq![]),
        ("RAA_"@, seq!["RESTART"@, "POWEROFF"@]),
        ("RTE_"@, seq!["NEUTRINO"@]),
        ("DEFAULT"@, seq![]),
        ("SYS_"@, seq!["BOOT"@]),
        ("ZZY_"@, seq!["EXPLOITS"@]),
        ("ZZZ_"@, seq!["BM"@, "MATRIXTEAM"@, "OPL"@]),
    ]
}

/// The aliases of the first table entry with the given key; none when no
/// entry has it.
pub open spec fn lookup_aliases(t: Seq<(Seq<char>, Seq<Seq<char>>)>, key: Seq<char>) -> Seq<
    Seq<char>,
>
    decreases t.len(),
{
    if t.len() == 0 {
        Seq::empty()
    } else if t[0].0 == key {
        t[0].1
    } else {
        lookup_aliases(t.drop_first(), key)
    }
}

/// The built-in aliases of a category key.
pub open spec fn canonical_aliases(key: Seq<char>) -> Seq<Seq<char>> {
    lookup_aliases(canonical_table(), key)
}

pub open spec fn aliases_view(a: Vec<&'static str>) -> Seq<Seq<char>> {
    a@.map_values(|s: &'static str| s@)
}

pub open spec fn table_view(t: Seq<CanonicalCategoryAliases>) -> Seq<(Seq<char>, Seq<Seq<char>>)> {
    t.map_values(|g: CanonicalCategoryAliases| (g.key@, aliases_view(g.aliases)))
}

/// The built-in categories in priority order.
pub fn canonical_category_aliases() -> (t: Vec<CanonicalCategoryAliases>)
    ensures
        table_view(t@) == canonical_table(),
{
    let t = vec![
        CanonicalCategoryAliases { key: "APP_", aliases: vec!["OSDXMB", "XEBPLUS"] },
        CanonicalCategoryAliases { key: "APPS", aliases: vec![] },
        CanonicalCategoryAliases { key: "PS1_", aliases: vec![] },
        CanonicalCategoryAliases { key: "EMU_", aliases: vec![] },
        CanonicalCategoryAliases { key: "GME_", aliases: vec![] },
        CanonicalCategoryAliases { key: "DST_", aliases: vec![] },
        CanonicalCategoryAliases { key: "DBG_", aliases: vec![] },
        CanonicalCategoryAliases { key: "RAA_", aliases: vec!["RESTART", "POWEROFF"] },
        CanonicalCategoryAliases { key: "RTE_", aliases: vec!["NEUTRINO"] },
        CanonicalCategoryAliases { key: "DEFAULT", aliases: vec![] },
        CanonicalCategoryAliases { key: "SYS_", aliases: vec!["BOOT"] },
        CanonicalCategoryAliases { key: "ZZY_", aliases: vec!["EXPLOITS"] },
        CanonicalCategoryAliases { key: "ZZZ_", aliases: vec!["BM", "MATRIXTEAM", "OPL"] },
    ];
    assert forall|i: int| 0 <= i < 13 implies table_view(t@)[i] == canonical_table()[i] by {
        assert(aliases_view(t@[i].aliases) =~= canonical_table()[i].1);
    }
    assert(table_view(t@) =~= canonical_table());
    t
}


/// Whether `x` occurs in `s`.
pub open spec fn seq_has(s: Seq<Seq<char>>, x: Seq<char>) -> bool {
    exists|i: int| 0 <= i < s.len() && s[i] == x
}

/// The built-in aliases of a category key (none for an unknown key).
pub fn canonical_aliases_for_category(key: &str) -> (a: Vec<&'static str>)
    ensures
        aliases_view(a) == canonical_aliases(key@),
{
    let table = canonical_category_aliases();
    let k = chars_of(key);
    assert(canonical_table().skip(0) == canonical_table());
    let mut i: usize = 0;
    while i < table.len()
        invariant
            i <= table@.len(),
            k@ == key@,
            table_view(table@) == canonical_table(),
            canonical_aliases(key@) == lookup_aliases(canonical_table().skip(i as int), key@),
        decreases table.len() - i,
    {
        let ghost rest = canonical_table().skip(i as int);
        assert(rest[0] == table_view(table@)[i as int]);
        assert(rest.drop_first() == canonical_table().skip(i + 1));
        if chars_eq(k.as_slice(), chars_of(table[i].key).as_slice()) {
            let mut out: Vec<&'static str> = Vec::new();
            let mut j: usize = 0;
            while j < table[i].aliases.len()
                invariant
                    i < table@.len(),
                    j <= table@[i as int].aliases@.len(),
                    aliases_view(out) == aliases_view(table@[i as int].aliases).take(j as int),
                decreases table@[i as int].aliases@.len() - j,
            {
                let ghost before = out@;
                out.push(table[i].aliases[j]);
                proof {
                    assert(aliases_view(out) =~= before.map_values(|s: &'static str| s@).push(
                        table@[i as int].aliases@[j as int]@,
                    ));
                    assert(aliases_view(table@[i as int].aliases).take(j + 1) =~= aliases_view(
                        table@[i as int].aliases,
                    ).take(j as int).push(table@[i as int].aliases@[j as int]@));
                }
                j = j + 1;
            }
            proof {
                assert(aliases_view(table@[i as int].aliases).take(j as int) =~= aliases_view(
                    table@[i as int].aliases,
                ));
            }
            return out;
        }
        i = i + 1;
    }
    let out: Vec<&'static str> = Vec::new();
    assert(aliases_view(out) =~= Seq::<Seq<char>>::empty());
    out
}

/// Whether `alias` is one of the built-in aliases of `key`.
pub open spec fn spec_is_supported_alias(key: Seq<char>, alias: Seq<char>) -> bool {
    seq_has(canonical_aliases(key), alias)
}

fn is_supported_alias(key: &[char], alias: &[char]) -> (r: bool)
    ensures
        r == spec_is_supported_alias(key@, alias@),
{
    let key_s = string_from_chars(key);
    let list = canonical_aliases_for_category(key_s.as_str());
    let mut i: usize = 0;
    while i < list.len()
        invariant
            i <= list@.len(),
            aliases_view(list) == canonical_aliases(key@),
            forall|k: int| 0 <= k < i ==> aliases_view(list)[k] != alias@,
        decreases list.len() - i,
    {
        if chars_eq(chars_of(list[i]).as_slice(), alias) {
            assert(aliases_view(list)[i as int] == alias@);
            return true;
        }
        i = i + 1;
    }
    false
}

/// A category: a key (a folder-name prefix, or `APPS`, or `DEFAULT`) and
/// the aliases that map onto it.
#[derive(Debug)]
pub struct CategoryRule {
    pub key: String,
    pub aliases: Vec<String>,
}

/// A category as a mathematical value.
pub struct CategoryModel {
    pub key: Seq<char>,
    pub aliases: Seq<Seq<char>>,
}

impl CategoryRule {
    pub open spec fn view(&self) -> CategoryModel {
        CategoryModel { key: self.key@, aliases: self.aliases@.map_values(|a: String| a@) }
    }

    /// A category with no aliases.
    pub fn new(key: &'static str) -> (c: Self)
        ensures
            c.view() == (CategoryModel { key: key@, aliases: Seq::empty() }),
    {
        let c = CategoryRule { key: key.to_owned(), aliases: Vec::new() };
        assert(c.view().aliases =~= Seq::<Seq<char>>::empty());
        c
    }

    /// The category with the given aliases.
    pub fn with_aliases(self, aliases: &Vec<&'static str>) -> (c: Self)
        ensures
            c.view() == (CategoryModel { key: self.key@, aliases: aliases_view(*aliases) }),
    {
        let mut out: Vec<String> = Vec::new();
        let mut i: usize = 0;
        while i < aliases.len()
            invariant
                i <= aliases@.len(),
                out@.map_values(|a: String| a@) == aliases_view(*aliases).take(i as int),
            decreases aliases.len() - i,
        {
            let ghost before = out@;
            let item = aliases[i].to_owned();
            out.push(item);
            proof {
                assert(out@ == before.push(item));
                assert(out@.map_values(|a: String| a@) =~= before.map_values(|a: String| a@).push(
                    item@,
                ));
                assert(aliases_view(*aliases).take(i + 1) =~= aliases_view(*aliases).take(
                    i as int,
                ).push(aliases@[i as int]@));
            }
            i = i + 1;
        }
        assert(aliases_view(*aliases).take(i as int) =~= aliases_view(*aliases));
        CategoryRule { key: self.key, aliases: out }
    }
}

/// The rules: spacing between consecutive names, slots per category, and
/// the categories in priority order.
#[derive(Debug)]
pub struct TimestampRules {
    pub seconds_between_items: u32,
    pub slots_per_category: u32,
    pub categories: Vec<CategoryRule>,
}

/// The rules as a mathematical value.
pub struct RulesModel {
    pub seconds_between_items: u32,
    pub slots_per_category: u32,
    pub categories: Seq<CategoryModel>,
}

/// The built-in categories as category values.
pub open spec fn default_categories_model() -> Seq<CategoryModel> {
    canonical_table().map_values(
        |g: (Seq<char>, Seq<Seq<char>>)| CategoryModel { key: g.0, aliases: g.1 },
    )
}

/// The default rules: two seconds apart, a day of slots per category, the
/// built-in categories.
pub open spec fn default_rules_model() -> RulesModel {
    RulesModel {
        seconds_between_items: 2,
        slots_per_category: 86_400,
        categories: default_categories_model(),
    }
}

impl TimestampRules {
    pub open spec fn view(&self) -> RulesModel {
        RulesModel {
            seconds_between_items: self.seconds_between_items,
            slots_per_category: self.slots_per_category,
            categories: self.categories@.map_values(|c: CategoryRule| c.view()),
        }
    }

    pub fn default_seconds_between_items() -> (s: u32)
        ensures
            s == 2,
    {
        2
    }

    pub fn default_slots_per_category() -> (s: u32)
        ensures
            s == 86_400,
    {
        86_400
    }

    /// The built-in categories.
    pub fn default_categories() -> (c: Vec<CategoryRule>)
        ensures
            c@.map_values(|c: CategoryRule| c.view()) == default_categories_model(),
    {
        let table = canonical_category_aliases();
        let mut out: Vec<CategoryRule> = Vec::new();
        let mut i: usize = 0;
        while i < table.len()
            invariant
                i <= table@.len(),
                table_view(table@) == canonical_table(),
                out@.map_values(|c: CategoryRule| c.view()) == default_categories_model().take(
                    i as int,
                ),
            decreases table.len() - i,
        {
            let mut category = CategoryRule::new(table[i].key);
            if table[i].aliases.len() > 0 {
                category = category.with_aliases(&table[i].aliases);
            }
            proof {
                assert(table_view(table@)[i as int] == canonical_table()[i as int]);
                if table@[i as int].aliases@.len() == 0 {
                    assert(aliases_view(table@[i as int].aliases) =~= Seq::<Seq<char>>::empty());
                }
            }
            let ghost before = out@;
            let ghost cv = category.view();
            out.push(category);
            proof {
                assert(out@.map_values(|c: CategoryRule| c.view()) =~= before.map_values(
                    |c: CategoryRule| c.view(),
                ).push(cv));
                assert(default_categories_model().take(i + 1) =~= default_categories_model().take(
                    i as int,
                ).push(default_categories_model()[i as int]));
            }
            i = i + 1;
        }
        assert(default_categories_model().take(13) =~= default_categories_model());
        out
    }

    pub fn seconds_between_items_i64(&self) -> (s: i64)
        ensures
            s == self.seconds_between_items,
    {
        self.seconds_between_items as i64
    }

    pub fn slots_per_category_i64(&self) -> (s: i64)
        ensures
            s == self.slots_per_category,
    {
        self.slots_per_category as i64
    }
}

impl Default for TimestampRules {
    fn default() -> (r: Self)
        ensures
            r.view() == default_rules_model(),
    {
        TimestampRules {
            seconds_between_items: Self::default_seconds_between_items(),
            slots_per_category: Self::default_slots_per_category(),
            categories: Self::default_categories(),
        }
    }
}


// ---------------------------------------------------------------------------
// Sanitising
// ---------------------------------------------------------------------------

/// An alias cleaned for a category: trimmed and upper-cased, the category
/// prefix dropped (except for `APPS` and `DEFAULT`), kept only when it is a
/// built-in alias of the category.
pub open spec fn spec_sanitize_alias(alias: Seq<char>, key: Seq<char>) -> Option<Seq<char>> {
    let v = ascii_upper(trim_spec(alias));
    if v.len() == 0 {
        None
    } else {
        let v2 = if key != "APPS"@ && key != "DEFAULT"@ && key.len() <= v.len() && v.take(
            key.len() as int,
        ) == key {
            v.skip(key.len() as int)
        } else {
            v
        };
        if v2.len() == 0 || !spec_is_supported_alias(key, v2) {
            None
        } else {
            Some(v2)
        }
    }
}

/// The cleaned aliases of a category, each kept once, first occurrence
/// first.
pub open spec fn kept_aliases(aliases: Seq<Seq<char>>, key: Seq<char>) -> Seq<Seq<char>>
    decreases aliases.len(),
{
    if aliases.len() == 0 {
        Seq::empty()
    } else {
        let prev = kept_aliases(aliases.drop_last(), key);
        match spec_sanitize_alias(aliases.last(), key) {
            Some(v) => if seq_has(prev, v) {
                prev
            } else {
                prev.push(v)
            },
            None => prev,
        }
    }
}

/// Whether some category has the key.
pub open spec fn has_key(cats: Seq<CategoryModel>, key: Seq<char>) -> bool {
    exists|i: int| 0 <= i < cats.len() && cats[i].key == key
}

/// The cleaned categories: keys trimmed and upper-cased, empty and repeated
/// keys dropped (the first occurrence wins), aliases cleaned.
pub open spec fn sanitized_categories(cats: Seq<CategoryModel>) -> Seq<CategoryModel>
    decreases cats.len(),
{
    if cats.len() == 0 {
        Seq::empty()
    } else {
        let prev = sanitized_categories(cats.drop_last());
        let c = cats.last();
        let k = ascii_upper(trim_spec(c.key));
        if k.len() == 0 || has_key(prev, k) {
            prev
        } else {
            prev.push(CategoryModel { key: k, aliases: kept_aliases(c.aliases, k) })
        }
    }
}

/// The categories with a `DEFAULT` category appended when none is there.
pub open spec fn with_default(cats: Seq<CategoryModel>) -> Seq<CategoryModel> {
    if has_key(cats, "DEFAULT"@) {
        cats
    } else {
        cats.push(CategoryModel { key: "DEFAULT"@, aliases: Seq::empty() })
    }
}

/// The spacing rounded up to an even number of at least 2 seconds (0 means
/// the default), capped at the largest even `u32`.
pub open spec fn sanitized_seconds(s: u32) -> u32 {
    let s1: int = if s == 0 { 2 } else { s as int };
    let adjusted: int = if s1 < 2 { 2 } else { s1 };
    let next_even = ((adjusted + 1) / 2) * 2;
    (if next_even > 4294967294 { 4294967294 } else { next_even }) as u32
}

/// The slot count, 0 meaning the default.
pub open spec fn sanitized_slots(s: u32) -> u32 {
    if s == 0 {
        86_400
    } else {
        s
    }
}

/// The rules after `sanitize`: with no categories, the defaults; otherwise
/// cleaned spacing, slot count and categories, with a `DEFAULT` category.
pub open spec fn spec_sanitize(r: RulesModel) -> RulesModel {
    if r.categories.len() == 0 {
        default_rules_model()
    } else {
        RulesModel {
            seconds_between_items: sanitized_seconds(r.seconds_between_items),
            slots_per_category: sanitized_slots(r.slots_per_category),
            categories: with_default(sanitized_categories(r.categories)),
        }
    }
}

/// Cleans an alias for a category; `None` when nothing usable is left.
pub fn sanitize_alias(alias: String, key: &str) -> (r: Option<String>)
    ensures
        match (r, spec_sanitize_alias(alias@, key@)) {
            (Some(a), Some(b)) => a@ == b,
            (None, None) => true,
            _ => false,
        },
{
    let value = upper_chars(trim_chars(chars_of(alias.as_str()).as_slice()).as_slice());
    if value.len() == 0 {
        return None;
    }
    let key_c = chars_of(key);
    let strip = !chars_eq(key_c.as_slice(), chars_of("APPS").as_slice()) && !chars_eq(
        key_c.as_slice(),
        chars_of("DEFAULT").as_slice(),
    ) && starts_with_chars(value.as_slice(), key_c.as_slice());
    let mut v2: Vec<char> = Vec::new();
    let start = if strip {
        key_c.len()
    } else {
        0
    };
    let mut i = start;
    while i < value.len()
        invariant
            start <= i <= value@.len(),
            v2@ == value@.subrange(start as int, i as int),
        decreases value.len() - i,
    {
        v2.push(value[i]);
        i = i + 1;
    }
    assert(v2@ == value@.skip(start as int));
    assert(value@.skip(0) =~= value@);
    if v2.len() == 0 {
        return None;
    }
    if !is_supported_alias(key_c.as_slice(), v2.as_slice()) {
        return None;
    }
    Some(string_from_chars(v2.as_slice()))
}

fn contains_string(list: &Vec<String>, x: &String) -> (r: bool)
    ensures
        r == seq_has(list@.map_values(|a: String| a@), x@),
{
    let ghost v = list@.map_values(|a: String| a@);
    let mut i: usize = 0;
    while i < list.len()
        invariant
            i <= list@.len(),
            v == list@.map_values(|a: String| a@),
            forall|k: int| 0 <= k < i ==> v[k] != x@,
        decreases list.len() - i,
    {
        if list[i] == *x {
            assert(v[i as int] == x@);
            return true;
        }
        i = i + 1;
    }
    false
}

fn has_key_exec(cats: &Vec<CategoryRule>, key: &String) -> (r: bool)
    ensures
        r == has_key(cats@.map_values(|c: CategoryRule| c.view()), key@),
{
    let ghost v = cats@.map_values(|c: CategoryRule| c.view());
    let mut i: usize = 0;
    while i < cats.len()
        invariant
            i <= cats@.len(),
            v == cats@.map_values(|c: CategoryRule| c.view()),
            forall|k: int| 0 <= k < i ==> v[k].key != key@,
        decreases cats.len() - i,
    {
        if cats[i].key == *key {
            assert(v[i as int].key == key@);
            return true;
        }
        i = i + 1;
    }
    false
}

fn clean_aliases(aliases: &Vec<String>, key: &String) -> (r: Vec<String>)
    ensures
        r@.map_values(|a: String| a@) == kept_aliases(aliases@.map_values(|a: String| a@), key@),
{
    let ghost src = aliases@.map_values(|a: String| a@);
    let mut out: Vec<String> = Vec::new();
    let mut i: usize = 0;
    while i < aliases.len()
        invariant
            i <= aliases@.len(),
            src == aliases@.map_values(|a: String| a@),
            out@.map_values(|a: String| a@) == kept_aliases(src.take(i as int), key@),
        decreases aliases.len() - i,
    {
        proof {
            assert(src.take(i + 1).drop_last() == src.take(i as int));
            assert(src.take(i + 1).last() == aliases@[i as int]@);
        }
        let cleaned = sanitize_alias(aliases[i].clone(), key.as_str());
        match cleaned {
            Some(a) => {
                if !contains_string(&out, &a) {
                    let ghost before = out@;
                    let ghost av = a@;
                    out.push(a);
                    proof {
                        assert(out@.map_values(|a: String| a@) =~= before.map_values(
                            |a: String| a@,
                        ).push(av));
                    }
                }
            },
            None => {},
        }
        i = i + 1;
    }
    assert(src.take(aliases@.len() as int) == src);
    out
}

impl TimestampRules {
    /// Cleans the rules: the spacing becomes an even number of at least two
    /// seconds, a zero slot count the default, category keys trimmed and
    /// upper-cased with empty and repeated keys dropped, aliases cleaned and
    /// deduplicated, and a `DEFAULT` category added when missing.  Rules
    /// without categories become the defaults.
    pub fn sanitize(&mut self)
        ensures
            final(self).view() == spec_sanitize(old(self).view()),
    {
        if self.seconds_between_items == 0 {
            self.seconds_between_items = Self::default_seconds_between_items();
        }
        let adjusted: u64 = if self.seconds_between_items < 2 {
            2
        } else {
            self.seconds_between_items as u64
        };
        let next_even = ((adjusted + 1) / 2) * 2;
        let max_even: u64 = 4294967294;
        self.seconds_between_items = if next_even < max_even {
            next_even
        } else {
            max_even
        } as u32;
        if self.slots_per_category == 0 {
            self.slots_per_category = Self::default_slots_per_category();
        }
        if self.categories.len() == 0 {
            *self = Self::default();
            return;
        }
        let mut old_categories: Vec<CategoryRule> = Vec::new();
        std::mem::swap(&mut old_categories, &mut self.categories);
        let ghost src = old_categories@.map_values(|c: CategoryRule| c.view());
        let mut sanitized: Vec<CategoryRule> = Vec::new();
        let mut i: usize = 0;
        while i < old_categories.len()
            invariant
                i <= old_categories@.len(),
                src == old_categories@.map_values(|c: CategoryRule| c.view()),
                sanitized@.map_values(|c: CategoryRule| c.view()) == sanitized_categories(
                    src.take(i as int),
                ),
            decreases old_categories.len() - i,
        {
            proof {
                assert(src.take(i + 1).drop_last() == src.take(i as int));
                assert(src.take(i + 1).last() == old_categories@[i as int].view());
            }
            let key_chars = upper_chars(
                trim_chars(chars_of(old_categories[i].key.as_str()).as_slice()).as_slice(),
            );
            let key = string_from_chars(key_chars.as_slice());
            if key_chars.len() != 0 && !has_key_exec(&sanitized, &key) {
                let aliases = clean_aliases(&old_categories[i].aliases, &key);
                let ghost before = sanitized@;
                let rule = CategoryRule { key, aliases };
                let ghost rv = rule.view();
                sanitized.push(rule);
                proof {
                    assert(sanitized@.map_values(|c: CategoryRule| c.view()) =~= before.map_values(
                        |c: CategoryRule| c.view(),
                    ).push(rv));
                }
            }
            i = i + 1;
        }
        assert(src.take(old_categories@.len() as int) == src);
        let default_key = "DEFAULT".to_owned();
        if !has_key_exec(&sanitized, &default_key) {
            let ghost before = sanitized@;
            let rule = CategoryRule { key: default_key, aliases: Vec::new() };
            let ghost rv = rule.view();
            sanitized.push(rule);
            proof {
                assert(rv.aliases =~= Seq::<Seq<char>>::empty());
                assert(sanitized@.map_values(|c: CategoryRule| c.view()) =~= before.map_values(
                    |c: CategoryRule| c.view(),
                ).push(rv));
            }
        }
        self.categories = sanitized;
    }
}


// ---------------------------------------------------------------------------
// Names and categories
// ---------------------------------------------------------------------------

/// The first category from `i` on that lists `name` as an alias.
pub open spec fn first_alias_from(cats: Seq<CategoryModel>, name: Seq<char>, i: int) -> Option<int>
    decreases cats.len() - i,
{
    if i < 0 || i >= cats.len() {
        None
    } else if seq_has(cats[i].aliases, name) {
        Some(i)
    } else {
        first_alias_from(cats, name, i + 1)
    }
}

/// The name the rules work with: trimmed and upper-cased, and an alias
/// replaced by its category (`APPS` stands alone, `DEFAULT` adds nothing,
/// any other key is prefixed).  `None` for a blank name.
pub open spec fn spec_normalize_name(name: Seq<char>, r: RulesModel) -> Option<Seq<char>> {
    let t = trim_spec(name);
    if t.len() == 0 {
        None
    } else {
        let up = ascii_upper(t);
        match first_alias_from(r.categories, up, 0) {
            Some(i) => {
                let key = r.categories[i].key;
                Some(
                    if key == "APPS"@ {
                        "APPS"@
                    } else if key == "DEFAULT"@ {
                        up
                    } else {
                        key + up
                    },
                )
            },
            None => Some(up),
        }
    }
}

/// The category of a normalised name, searching from `i`: the first
/// category whose key prefixes the name (`APPS` only matches `APPS`
/// itself), else the last `DEFAULT` category seen.
pub open spec fn find_from(
    eff: Seq<char>,
    cats: Seq<CategoryModel>,
    i: int,
    fallback: Option<int>,
) -> Option<int>
    decreases cats.len() - i,
{
    if i < 0 || i >= cats.len() {
        fallback
    } else {
        let key = cats[i].key;
        if key == "DEFAULT"@ {
            find_from(eff, cats, i + 1, Some(i))
        } else if key == "APPS"@ {
            if eff == "APPS"@ {
                Some(i)
            } else {
                find_from(eff, cats, i + 1, fallback)
            }
        } else if key.len() <= eff.len() && eff.take(key.len() as int) == key {
            Some(i)
        } else {
            find_from(eff, cats, i + 1, fallback)
        }
    }
}

/// The index of the category a normalised name falls in.
pub open spec fn spec_find_category(eff: Seq<char>, r: RulesModel) -> Option<int> {
    find_from(eff, r.categories, 0, None)
}

/// The part of a normalised name that orders it within its category:
/// `APPS` for the `APPS` category, otherwise the name without its category
/// prefix, with hyphens removed.
pub open spec fn spec_payload(eff: Seq<char>, r: RulesModel) -> Seq<char> {
    match spec_find_category(eff, r) {
        Some(i) => {
            let key = r.categories[i].key;
            if key == "APPS"@ {
                "APPS"@
            } else if key == "DEFAULT"@ {
                remove_char(eff, '-')
            } else if key.len() <= eff.len() && eff.take(key.len() as int) == key {
                remove_char(eff.skip(key.len() as int), '-')
            } else {
                remove_char(eff, '-')
            }
        },
        None => remove_char(eff, '-'),
    }
}

/// Seconds before the base time a name is placed: its category's block of
/// slots, then its slot within the block.
pub open spec fn spec_offset(category_index: int, slot: int, r: RulesModel) -> int {
    category_index * (r.seconds_between_items * r.slots_per_category) + slot
        * r.seconds_between_items
}

impl TimestampRules {
    /// Normalises a folder name for the rules; `None` for a blank name.
    pub fn normalize_name_for_rules(&self, name: &str) -> (r: Option<String>)
        ensures
            match (r, spec_normalize_name(name@, self.view())) {
                (Some(a), Some(b)) => a@ == b,
                (None, None) => true,
                _ => false,
            },
    {
        let trimmed = trim_chars(chars_of(name).as_slice());
        if trimmed.len() == 0 {
            return None;
        }
        let upper = upper_chars(trimmed.as_slice());
        let upper_s = string_from_chars(upper.as_slice());
        let ghost cats = self.view().categories;
        let mut i: usize = 0;
        while i < self.categories.len()
            invariant
                i <= self.categories@.len(),
                cats == self.view().categories,
                upper_s@ == upper@,
                upper@ == ascii_upper(trim_spec(name@)),
                trim_spec(name@).len() != 0,
                first_alias_from(cats, upper@, 0) == first_alias_from(cats, upper@, i as int),
            decreases self.categories.len() - i,
        {
            assert(cats[i as int] == self.categories@[i as int].view());
            if contains_string(&self.categories[i].aliases, &upper_s) {
                let key = &self.categories[i].key;
                let key_c = chars_of(key.as_str());
                assert(first_alias_from(cats, upper@, i as int) == Some(i as int));
                assert(key_c@ == cats[i as int].key);
                if chars_eq(key_c.as_slice(), chars_of("APPS").as_slice()) {
                    assert(cats[i as int].key == "APPS"@);
                    return Some("APPS".to_owned());
                } else if chars_eq(key_c.as_slice(), chars_of("DEFAULT").as_slice()) {
                    return Some(upper_s);
                } else {
                    let mut out = key_c;
                    let mut k: usize = 0;
                    let ghost kc = out@;
                    while k < upper.len()
                        invariant
                            k <= upper@.len(),
                            out@ == kc + upper@.take(k as int),
                        decreases upper.len() - k,
                    {
                        out.push(upper[k]);
                        assert(upper@.take(k + 1) == upper@.take(k as int).push(upper@[k as int]));
                        k = k + 1;
                    }
                    assert(upper@.take(upper@.len() as int) == upper@);
                    return Some(string_from_chars(out.as_slice()));
                }
            }
            i = i + 1;
        }
        Some(upper_s)
    }

    /// The category a normalised name falls in, with its index.
    pub fn find_category<'a>(&'a self, effective: &str) -> (r: Option<(usize, &'a CategoryRule)>)
        ensures
            match (r, spec_find_category(effective@, self.view())) {
                (Some((i, c)), Some(j)) => i == j && i < self.categories@.len() && *c
                    == self.categories@[j],
                (None, None) => true,
                _ => false,
            },
    {
        let eff = chars_of(effective);
        let ghost cats = self.view().categories;
        let mut fallback: Option<usize> = None;
        let mut i: usize = 0;
        while i < self.categories.len()
            invariant
                i <= self.categories@.len(),
                cats == self.view().categories,
                eff@ == effective@,
                fallback matches Some(f) ==> f < self.categories@.len(),
                spec_find_category(effective@, self.view()) == find_from(
                    eff@,
                    cats,
                    i as int,
                    match fallback {
                        Some(f) => Some(f as int),
                        None => None,
                    },
                ),
            decreases self.categories.len() - i,
        {
            let key_c = chars_of(self.categories[i].key.as_str());
            if chars_eq(key_c.as_slice(), chars_of("DEFAULT").as_slice()) {
                fallback = Some(i);
            } else if chars_eq(key_c.as_slice(), chars_of("APPS").as_slice()) {
                if chars_eq(eff.as_slice(), chars_of("APPS").as_slice()) {
                    return Some((i, &self.categories[i]));
                }
            } else if starts_with_chars(eff.as_slice(), key_c.as_slice()) {
                return Some((i, &self.categories[i]));
            }
            i = i + 1;
        }
        match fallback {
            Some(f) => Some((f, &self.categories[f])),
            None => None,
        }
    }

    /// The priority index of a normalised name's category.
    pub fn category_priority_index(&self, effective: &str) -> (r: Option<usize>)
        ensures
            match (r, spec_find_category(effective@, self.view())) {
                (Some(i), Some(j)) => i == j,
                (None, None) => true,
                _ => false,
            },
    {
        match self.find_category(effective) {
            Some((index, _)) => Some(index),
            None => None,
        }
    }

    /// The part of a normalised name that orders it within its category.
    pub fn payload_for_effective(&self, effective: &str) -> (r: String)
        ensures
            r@ == spec_payload(effective@, self.view()),
    {
        let eff = chars_of(effective);
        match self.find_category(effective) {
            Some((j, category)) => {
                assert(self.view().categories[j as int] == self.categories@[j as int].view());
                let key_c = chars_of(category.key.as_str());
                if chars_eq(key_c.as_slice(), chars_of("APPS").as_slice()) {
                    "APPS".to_owned()
                } else if chars_eq(key_c.as_slice(), chars_of("DEFAULT").as_slice()) {
                    string_from_chars(remove_char_chars(eff.as_slice(), '-').as_slice())
                } else if starts_with_chars(eff.as_slice(), key_c.as_slice()) {
                    let mut rest: Vec<char> = Vec::new();
                    let mut k = key_c.len();
                    while k < eff.len()
                        invariant
                            key_c@.len() <= k <= eff@.len(),
                            rest@ == eff@.subrange(key_c@.len() as int, k as int),
                        decreases eff.len() - k,
                    {
                        rest.push(eff[k]);
                        k = k + 1;
                    }
                    assert(rest@ == eff@.skip(key_c@.len() as int));
                    string_from_chars(remove_char_chars(rest.as_slice(), '-').as_slice())
                } else {
                    string_from_chars(remove_char_chars(eff.as_slice(), '-').as_slice())
                }
            },
            None => string_from_chars(remove_char_chars(eff.as_slice(), '-').as_slice()),
        }
    }

    /// The offset in seconds of a normalised name whose slot within its
    /// category is `slot`; `None` when the name falls in no category.
    pub fn offset_seconds_for_slot(&self, effective: &str, slot: i64) -> (r: Option<i64>)
        requires
            spec_find_category(effective@, self.view()) matches Some(i) ==> {
                let block = self.seconds_between_items * self.slots_per_category;
                &&& i <= i64::MAX
                &&& block <= i64::MAX
                &&& i * block <= i64::MAX
                &&& i64::MIN <= slot * self.seconds_between_items <= i64::MAX
                &&& i64::MIN <= spec_offset(i, slot as int, self.view()) <= i64::MAX
            },
        ensures
            match (r, spec_find_category(effective@, self.view())) {
                (Some(o), Some(i)) => o == spec_offset(i, slot as int, self.view()),
                (None, None) => true,
                _ => false,
            },
    {
        let category_index = match self.category_priority_index(effective) {
            Some(i) => i,
            None => {
                return None;
            },
        };
        let sbi = self.seconds_between_items_i64();
        let spc = self.slots_per_category_i64();
        proof {
            assert(0 <= sbi * spc) by (nonlinear_arith)
                requires
                    0 <= sbi,
                    0 <= spc,
            ;
            assert(0 <= category_index * (sbi * spc)) by (nonlinear_arith)
                requires
                    0 <= category_index,
                    0 <= sbi * spc,
            ;
        }
        let category_block_seconds = sbi * spc;
        let category_offset = category_index as i64 * category_block_seconds;
        let name_offset = slot * sbi;
        Some(category_offset + name_offset)
    }
}


/// Whether rules are in the shape `sanitize` leaves them: an even spacing
/// of at least 2 seconds, at least one slot per category, a `DEFAULT`
/// category, distinct category keys, and in each category distinct aliases
/// that are all built-in aliases of its key.
pub open spec fn rules_well_formed(r: RulesModel) -> bool {
    &&& r.seconds_between_items >= 2
    &&& r.seconds_between_items % 2 == 0
    &&& r.slots_per_category > 0
    &&& has_key(r.categories, "DEFAULT"@)
    &&& forall|i: int, j: int|
        0 <= i < j < r.categories.len() ==> (#[trigger] r.categories[i]).key != (
        #[trigger] r.categories[j]).key
    &&& forall|i: int| 0 <= i < r.categories.len() ==> aliases_clean(#[trigger] r.categories[i])
}

/// Whether a category's aliases are distinct built-in aliases of its key.
pub open spec fn aliases_clean(c: CategoryModel) -> bool {
    clean_alias_list(c.key, c.aliases)
}

/// Whether aliases are distinct built-in aliases of `key`.
pub open spec fn clean_alias_list(key: Seq<char>, aliases: Seq<Seq<char>>) -> bool {
    &&& forall|a: int|
        0 <= a < aliases.len() ==> spec_is_supported_alias(key, #[trigger] aliases[a])
    &&& forall|a: int, b: int|
        0 <= a < b < aliases.len() ==> (#[trigger] aliases[a]) != (#[trigger] aliases[b])
}

proof fn lemma_kept_aliases_clean(aliases: Seq<Seq<char>>, key: Seq<char>)
    ensures
        clean_alias_list(key, kept_aliases(aliases, key)),
    decreases aliases.len(),
{
    if aliases.len() > 0 {
        lemma_kept_aliases_clean(aliases.drop_last(), key);
        let prev = kept_aliases(aliases.drop_last(), key);
        match spec_sanitize_alias(aliases.last(), key) {
            Some(v) => {
                if !seq_has(prev, v) {
                    let next = prev.push(v);
                    assert forall|a: int, b: int| 0 <= a < b < next.len() implies (
                    #[trigger] next[a]) != (#[trigger] next[b]) by {
                        if b == prev.len() {
                            assert(next[a] == prev[a]);
                            if next[a] == v {
                                assert(seq_has(prev, v));
                            }
                        } else {
                            assert(next[a] == prev[a] && next[b] == prev[b]);
                        }
                    }
                    assert forall|a: int| 0 <= a < next.len() implies spec_is_supported_alias(
                        key,
                        #[trigger] next[a],
                    ) by {
                        if a < prev.len() {
                            assert(next[a] == prev[a]);
                        }
                    }
                }
            },
            None => {},
        }
    }
}

proof fn lemma_sanitized_categories(cats: Seq<CategoryModel>)
    ensures
        forall|i: int, j: int|
            0 <= i < j < sanitized_categories(cats).len() ==> (
            #[trigger] sanitized_categories(cats)[i]).key != (
            #[trigger] sanitized_categories(cats)[j]).key,
        forall|i: int|
            0 <= i < sanitized_categories(cats).len() ==> aliases_clean(
                #[trigger] sanitized_categories(cats)[i],
            ),
    decreases cats.len(),
{
    if cats.len() > 0 {
        lemma_sanitized_categories(cats.drop_last());
        let prev = sanitized_categories(cats.drop_last());
        let c = cats.last();
        let k = ascii_upper(trim_spec(c.key));
        if !(k.len() == 0 || has_key(prev, k)) {
            let nc = CategoryModel { key: k, aliases: kept_aliases(c.aliases, k) };
            let next = prev.push(nc);
            lemma_kept_aliases_clean(c.aliases, k);
            assert forall|i: int, j: int| 0 <= i < j < next.len() implies (
            #[trigger] next[i]).key != (#[trigger] next[j]).key by {
                if j == prev.len() {
                    assert(next[i] == prev[i]);
                    if prev[i].key == k {
                        assert(has_key(prev, k));
                    }
                } else {
                    assert(next[i] == prev[i] && next[j] == prev[j]);
                }
            }
            assert forall|i: int| 0 <= i < next.len() implies aliases_clean(#[trigger] next[i]) by {
                if i < prev.len() {
                    assert(next[i] == prev[i]);
                }
            }
        }
    }
}

/// Sanitizing any rules leaves them well formed (see
/// `rules_well_formed`).
pub proof fn lemma_sanitize_well_formed(r: RulesModel)
    ensures
        rules_well_formed(spec_sanitize(r)),
{
    if r.categories.len() == 0 {
        lemma_default_rules_well_formed();
    } else {
        lemma_sanitize_well_formed_nonempty(r);
    }
}

proof fn lemma_sanitize_well_formed_nonempty(r: RulesModel)
    requires
        r.categories.len() > 0,
    ensures
        rules_well_formed(spec_sanitize(r)),
{
    let cats = sanitized_categories(r.categories);
    lemma_sanitized_categories(r.categories);
    let out = with_default(cats);
    if !has_key(cats, "DEFAULT"@) {
        let d = CategoryModel { key: "DEFAULT"@, aliases: Seq::empty() };
        assert(out == cats.push(d));
        assert(out[cats.len() as int].key == "DEFAULT"@);
        assert forall|i: int, j: int| 0 <= i < j < out.len() implies (#[trigger] out[i]).key != (
        #[trigger] out[j]).key by {
            if j == cats.len() {
                assert(out[i] == cats[i]);
                if cats[i].key == "DEFAULT"@ {
                    assert(has_key(cats, "DEFAULT"@));
                }
            } else {
                assert(out[i] == cats[i] && out[j] == cats[j]);
            }
        }
        assert forall|i: int| 0 <= i < out.len() implies aliases_clean(#[trigger] out[i]) by {
            if i < cats.len() {
                assert(out[i] == cats[i]);
            }
        }
    }
    let s = r.seconds_between_items;
    let s1: int = if s == 0 { 2 } else { s as int };
    let adjusted: int = if s1 < 2 { 2 } else { s1 };
    let next_even = ((adjusted + 1) / 2) * 2;
    assert(next_even >= 2 && next_even % 2 == 0);
}


proof fn lemma_default_rules_well_formed()
    ensures
        rules_well_formed(default_rules_model()),
{
    reveal_strlit("APP_");
    reveal_strlit("APPS");
    reveal_strlit("PS1_");
    reveal_strlit("EMU_");
    reveal_strlit("GME_");
    reveal_strlit("DST_");
    reveal_strlit("DBG_");
    reveal_strlit("RAA_");
    reveal_strlit("RTE_");
    reveal_strlit("DEFAULT");
    reveal_strlit("SYS_");
    reveal_strlit("ZZY_");
    reveal_strlit("ZZZ_");
    reveal_strlit("OSDXMB");
    reveal_strlit("XEBPLUS");
    reveal_strlit("RESTART");
    reveal_strlit("POWEROFF");
    reveal_strlit("NEUTRINO");
    reveal_strlit("BOOT");
    reveal_strlit("EXPLOITS");
    reveal_strlit("BM");
    reveal_strlit("MATRIXTEAM");
    reveal_strlit("OPL");
    let t = canonical_table();
    let cats = default_categories_model();
    assert(cats.len() == 13);
    assert forall|i: int, j: int| 0 <= i < j < cats.len() implies (#[trigger] cats[i]).key != (
    #[trigger] cats[j]).key by {
        assert(cats[i].key == t[i].0 && cats[j].key == t[j].0);
        assert(t[i].0[0] != t[j].0[0] || t[i].0[1] != t[j].0[1] || t[i].0[2] != t[j].0[2]
            || t[i].0[3] != t[j].0[3]);
    }
    assert(cats[9].key == "DEFAULT"@);
    assert forall|i: int| 0 <= i < cats.len() implies aliases_clean(#[trigger] cats[i]) by {
        lemma_lookup_own(i);
        let c = cats[i];
        assert(c.aliases == t[i].1);
        assert(canonical_aliases(c.key) == t[i].1);
        assert forall|a: int| 0 <= a < c.aliases.len() implies spec_is_supported_alias(
            c.key,
            #[trigger] c.aliases[a],
        ) by {
            assert(canonical_aliases(c.key)[a] == c.aliases[a]);
        }
        assert forall|a: int, b: int| 0 <= a < b < c.aliases.len() implies (
        #[trigger] c.aliases[a]) != (#[trigger] c.aliases[b]) by {
            assert(c.aliases[a][0] != c.aliases[b][0] || c.aliases[a].len() != c.aliases[b].len());
        }
    }
}

proof fn lemma_lookup_own(i: int)
    requires
        0 <= i < 13,
    ensures
        canonical_aliases(canonical_table()[i].0) == canonical_table()[i].1,
{
    reveal_strlit("APP_");
    reveal_strlit("APPS");
    reveal_strlit("PS1_");
    reveal_strlit("EMU_");
    reveal_strlit("GME_");
    reveal_strlit("DST_");
    reveal_strlit("DBG_");
    reveal_strlit("RAA_");
    reveal_strlit("RTE_");
    reveal_strlit("DEFAULT");
    reveal_strlit("SYS_");
    reveal_strlit("ZZY_");
    reveal_strlit("ZZZ_");
    reveal_strlit("OSDXMB");
    reveal_strlit("XEBPLUS");
    reveal_strlit("RESTART");
    reveal_strlit("POWEROFF");
    reveal_strlit("NEUTRINO");
    reveal_strlit("BOOT");
    reveal_strlit("EXPLOITS");
    reveal_strlit("BM");
    reveal_strlit("MATRIXTEAM");
    reveal_strlit("OPL");
    let t = canonical_table();
    let k = t[i].0;
    assert forall|j: int| 0 <= j < i implies t[j].0 != k by {
        assert(t[j].0[0] != k[0] || t[j].0[1] != k[1] || t[j].0[2] != k[2] || t[j].0[3] != k[3]);
    }
    lemma_lookup_skip(t, k, i);
}

proof fn lemma_lookup_skip(t: Seq<(Seq<char>, Seq<Seq<char>>)>, k: Seq<char>, i: int)
    requires
        0 <= i < t.len(),
        t[i].0 == k,
        forall|j: int| 0 <= j < i ==> t[j].0 != k,
    ensures
        lookup_aliases(t, k) == t[i].1,
    decreases i,
{
    if i > 0 {
        let t1 = t.drop_first();
        assert forall|j: int| 0 <= j < i - 1 implies t1[j].0 != k by {
            assert(t1[j] == t[j + 1]);
        }
        assert(t[0].0 != k);
        lemma_lookup_skip(t1, k, i - 1);
    }
}


/// A sequence with the items at `i` and `j` exchanged.
pub open spec fn swapped<T>(s: Seq<T>, i: int, j: int) -> Seq<T> {
    s.update(i, s[j]).update(j, s[i])
}

/// The aliases of `allowed` that `selected` names, in the order of
/// `allowed`.
pub open spec fn chosen_aliases(allowed: Seq<Seq<char>>, selected: Seq<Seq<char>>) -> Seq<
    Seq<char>,
>
    decreases allowed.len(),
{
    if allowed.len() == 0 {
        Seq::empty()
    } else if seq_has(selected, allowed.last()) {
        chosen_aliases(allowed.drop_last(), selected).push(allowed.last())
    } else {
        chosen_aliases(allowed.drop_last(), selected)
    }
}

/// Rules that differ from `r` only in their categories, which are `cats`.
pub open spec fn with_categories(r: RulesModel, cats: Seq<CategoryModel>) -> RulesModel {
    RulesModel {
        seconds_between_items: r.seconds_between_items,
        slots_per_category: r.slots_per_category,
        categories: cats,
    }
}

fn same_names(a: &Vec<String>, b: &Vec<String>) -> (r: bool)
    ensures
        r == (a@.map_values(|s: String| s@) == b@.map_values(|s: String| s@)),
{
    let ghost va = a@.map_values(|s: String| s@);
    let ghost vb = b@.map_values(|s: String| s@);
    if a.len() != b.len() {
        assert(va.len() != vb.len());
        return false;
    }
    let mut i: usize = 0;
    while i < a.len()
        invariant
            i <= a@.len(),
            a@.len() == b@.len(),
            va == a@.map_values(|s: String| s@),
            vb == b@.map_values(|s: String| s@),
            forall|k: int| 0 <= k < i ==> va[k] == vb[k],
        decreases a.len() - i,
    {
        if a[i] != b[i] {
            assert(va[i as int] != vb[i as int]);
            return false;
        }
        i = i + 1;
    }
    assert(va =~= vb);
    true
}

proof fn lemma_swap_map(v: Seq<CategoryRule>, i: int, j: int)
    requires
        0 <= i < v.len(),
        0 <= j < v.len(),
    ensures
        swapped(v, i, j).map_values(|c: CategoryRule| c.view()) == swapped(
            v.map_values(|c: CategoryRule| c.view()),
            i,
            j,
        ),
{
    assert(swapped(v, i, j).map_values(|c: CategoryRule| c.view()) =~= swapped(
        v.map_values(|c: CategoryRule| c.view()),
        i,
        j,
    ));
}

impl TimestampRules {
    /// Moves the category at `index` one place up, before its neighbour;
    /// nothing moves for the first category or an index past the end.
    pub fn move_category_up(&mut self, index: usize) -> (moved: bool)
        ensures
            moved == (0 < index < old(self).categories@.len()),
            moved ==> final(self).view() == with_categories(
                old(self).view(),
                swapped(old(self).view().categories, index - 1, index as int),
            ),
            !moved ==> final(self).view() == old(self).view(),
    {
        if index == 0 || index >= self.categories.len() {
            return false;
        }
        let ghost before = self.categories@;
        let item = self.categories.remove(index);
        self.categories.insert(index - 1, item);
        proof {
            assert(self.categories@ =~= swapped(before, index - 1, index as int));
            lemma_swap_map(before, index - 1, index as int);
        }
        true
    }

    /// Moves the category at `index` one place down, after its neighbour;
    /// nothing moves for the last category or an index past the end.
    pub fn move_category_down(&mut self, index: usize) -> (moved: bool)
        ensures
            moved == (index + 1 < old(self).categories@.len()),
            moved ==> final(self).view() == with_categories(
                old(self).view(),
                swapped(old(self).view().categories, index as int, index + 1),
            ),
            !moved ==> final(self).view() == old(self).view(),
    {
        let len = self.categories.len();
        if len < 2 || index > len - 2 {
            return false;
        }
        let ghost before = self.categories@;
        let item = self.categories.remove(index + 1);
        self.categories.insert(index, item);
        proof {
            assert(self.categories@ =~= swapped(before, index as int, index + 1));
            lemma_swap_map(before, index as int, index + 1);
        }
        true
    }

    /// Sets the aliases of the category at `index` to those of its built-in
    /// aliases that `aliases` names, in built-in order.  Says whether they
    /// changed; nothing changes for an index past the end.
    pub fn set_category_aliases(&mut self, index: usize, aliases: &Vec<String>) -> (changed: bool)
        ensures
            index >= old(self).categories@.len() ==> !changed && final(self).view() == old(
                self,
            ).view(),
            index < old(self).categories@.len() ==> {
                let old_cat = old(self).view().categories[index as int];
                let wanted = chosen_aliases(
                    canonical_aliases(old_cat.key),
                    aliases@.map_values(|a: String| a@),
                );
                &&& changed == (old_cat.aliases != wanted)
                &&& final(self).view() == with_categories(
                    old(self).view(),
                    old(self).view().categories.update(
                        index as int,
                        CategoryModel { key: old_cat.key, aliases: wanted },
                    ),
                )
            },
    {
        if index >= self.categories.len() {
            return false;
        }
        let allowed = canonical_aliases_for_category(self.categories[index].key.as_str());
        let ghost sel = aliases@.map_values(|a: String| a@);
        let ghost allowed_v = aliases_view(allowed);
        let mut sanitized: Vec<String> = Vec::new();
        let mut i: usize = 0;
        while i < allowed.len()
            invariant
                i <= allowed@.len(),
                allowed_v == aliases_view(allowed),
                sel == aliases@.map_values(|a: String| a@),
                sanitized@.map_values(|a: String| a@) == chosen_aliases(
                    allowed_v.take(i as int),
                    sel,
                ),
            decreases allowed.len() - i,
        {
            let candidate = allowed[i].to_owned();
            proof {
                assert(allowed_v.take(i + 1).drop_last() =~= allowed_v.take(i as int));
                assert(allowed_v.take(i + 1).last() == candidate@);
            }
            if contains_string(aliases, &candidate) {
                let ghost before = sanitized@;
                sanitized.push(candidate);
                assert(sanitized@.map_values(|a: String| a@) =~= before.map_values(
                    |a: String| a@,
                ).push(candidate@));
            }
            i = i + 1;
        }
        assert(allowed_v.take(i as int) =~= allowed_v);
        let ghost old_cats = self.categories@;
        let changed = !same_names(&self.categories[index].aliases, &sanitized);
        let mut category = self.categories.remove(index);
        category.aliases = sanitized;
        self.categories.insert(index, category);
        proof {
            assert(self.categories@ =~= old_cats.update(index as int, category));
            assert(self.categories@.map_values(|c: CategoryRule| c.view()) =~= old_cats.map_values(
                |c: CategoryRule| c.view(),
            ).update(index as int, category.view()));
        }
        changed
    }
}

/// Moving a category up and then back down leaves the rules as they were.
pub proof fn lemma_move_up_then_down(r: RulesModel, index: int)
    requires
        0 < index < r.categories.len(),
    ensures
        with_categories(
            with_categories(r, swapped(r.categories, index - 1, index)),
            swapped(swapped(r.categories, index - 1, index), index - 1, index),
        ) == r,
{
    assert(swapped(swapped(r.categories, index - 1, index), index - 1, index) =~= r.categories);
}


/// The spacing the editor stores for a value typed in: rounded up to an
/// even number of seconds and held between 2 and 3600.
pub open spec fn coerced_spacing(seconds: u32) -> u32 {
    let even: int = if seconds % 2 == 0 {
        seconds as int
    } else {
        seconds + 1
    };
    if even < 2 {
        2
    } else if even > 3600 {
        3600
    } else {
        even as u32
    }
}

impl TimestampRules {
    /// Sets the spacing from a value typed in, coerced as
    /// `coerced_spacing` says.  Says whether it changed.
    pub fn set_seconds_between_items(&mut self, seconds: u32) -> (changed: bool)
        ensures
            final(self).seconds_between_items == coerced_spacing(seconds),
            final(self).slots_per_category == old(self).slots_per_category,
            final(self).categories@ == old(self).categories@,
            changed == (old(self).seconds_between_items != coerced_spacing(seconds)),
    {
        let even: u64 = if seconds % 2 == 0 {
            seconds as u64
        } else {
            seconds as u64 + 1
        };
        let coerced: u32 = if even < 2 {
            2
        } else if even > 3600 {
            3600
        } else {
            even as u32
        };
        if self.seconds_between_items != coerced {
            self.seconds_between_items = coerced;
            true
        } else {
            false
        }
    }

    /// Sets the number of slots per category from a value typed in, at
    /// least one.
    pub fn set_slots_per_category(&mut self, slots: u32)
        ensures
            final(self).slots_per_category == if slots == 0 {
                1
            } else {
                slots
            },
            final(self).seconds_between_items == old(self).seconds_between_items,
            final(self).categories@ == old(self).categories@,
    {
        self.slots_per_category = if slots == 0 {
            1
        } else {
            slots
        };
    }
}

/// The heading of a category in the rules editor: its key and how many
/// aliases it has.
pub fn category_header(key: &str, alias_count: usize) -> (r: String)
    ensures
        r@ == key@ + " ("@ + decimal(alias_count as nat) + if alias_count == 1 {
            " alias)"@
        } else {
            " aliases)"@
        },
{
    let mut s = key.to_owned();
    string_push_str(&mut s, " (");
    let n = decimal_string(alias_count as u64);
    string_push_str(&mut s, n.as_str());
    if alias_count == 1 {
        string_push_str(&mut s, " alias)");
    } else {
        string_push_str(&mut s, " aliases)");
    }
    s
}

/// The built-in aliases joined with `, `.
pub open spec fn alias_list(aliases: Seq<Seq<char>>) -> Seq<char>
    decreases aliases.len(),
{
    if aliases.len() == 0 {
        Seq::empty()
    } else if aliases.len() == 1 {
        aliases[0]
    } else {
        alias_list(aliases.drop_last()) + ", "@ + aliases.last()
    }
}

/// The warning shown for a category whose built-in aliases are all
/// deselected.
pub fn no_aliases_warning(allowed: &Vec<&'static str>) -> (r: String)
    ensures
        r@ == "No aliases selected. Unprefixed names ("@ + alias_list(aliases_view(*allowed))
            + ") will fall back to DEFAULT scheduling."@,
{
    let ghost v = aliases_view(*allowed);
    let mut list = String::new();
    let mut i: usize = 0;
    while i < allowed.len()
        invariant
            i <= allowed@.len(),
            v == aliases_view(*allowed),
            list@ == alias_list(v.take(i as int)),
        decreases allowed.len() - i,
    {
        assert(v.take(i + 1).drop_last() =~= v.take(i as int));
        assert(v.take(i + 1).last() == allowed@[i as int]@);
        if i > 0 {
            string_push_str(&mut list, ", ");
        }
        string_push_str(&mut list, allowed[i]);
        proof {
            if i == 0 {
                assert(list@ =~= v.take(1)[0]);
            }
        }
        i = i + 1;
    }
    assert(v.take(i as int) =~= v);
    let mut s = "No aliases selected. Unprefixed names (".to_owned();
    string_push_str(&mut s, list.as_str());
    string_push_str(&mut s, ") will fall back to DEFAULT scheduling.");
    s
}


proof fn lemma_lookup_member(t: Seq<(Seq<char>, Seq<Seq<char>>)>, key: Seq<char>, a: Seq<char>)
    requires
        seq_has(lookup_aliases(t, key), a),
    ensures
        exists|i: int| 0 <= i < t.len() && t[i].0 == key && seq_has(#[trigger] t[i].1, a),
    decreases t.len(),
{
    if t.len() > 0 {
        if t[0].0 == key {
            assert(seq_has(t[0].1, a));
        } else {
            lemma_lookup_member(t.drop_first(), key, a);
            let i = choose|i: int|
                0 <= i < t.drop_first().len() && t.drop_first()[i].0 == key && seq_has(
                    #[trigger] t.drop_first()[i].1,
                    a,
                );
            assert(t[i + 1] == t.drop_first()[i]);
        }
    }
}

/// Whether a text is made of the letters `A` to `Z` only.
pub open spec fn upper_letters(a: Seq<char>) -> bool {
    forall|c: int| 0 <= c < a.len() ==> 'A' <= #[trigger] a[c] && a[c] <= 'Z'
}

proof fn lemma_table_aliases_plain(i: int, j: int)
    requires
        0 <= i < 13,
        0 <= j < canonical_table()[i].1.len(),
    ensures
        upper_letters(canonical_table()[i].1[j]),
        canonical_table()[i].1[j].len() > 0,
        canonical_table()[i].0.len() == 4,
        canonical_table()[i].0[3] == '_',
{
    reveal_strlit("APP_");
    reveal_strlit("APPS");
    reveal_strlit("PS1_");
    reveal_strlit("EMU_");
    reveal_strlit("GME_");
    reveal_strlit("DST_");
    reveal_strlit("DBG_");
    reveal_strlit("RAA_");
    reveal_strlit("RTE_");
    reveal_strlit("DEFAULT");
    reveal_strlit("SYS_");
    reveal_strlit("ZZY_");
    reveal_strlit("ZZZ_");
    reveal_strlit("OSDXMB");
    reveal_strlit("XEBPLUS");
    reveal_strlit("RESTART");
    reveal_strlit("POWEROFF");
    reveal_strlit("NEUTRINO");
    reveal_strlit("BOOT");
    reveal_strlit("EXPLOITS");
    reveal_strlit("BM");
    reveal_strlit("MATRIXTEAM");
    reveal_strlit("OPL");
}

proof fn lemma_builtin_alias_fixed(key: Seq<char>, a: Seq<char>)
    requires
        spec_is_supported_alias(key, a),
    ensures
        spec_sanitize_alias(a, key) == Some(a),
{
    let t = canonical_table();
    lemma_lookup_member(t, key, a);
    let i = choose|i: int| 0 <= i < t.len() && t[i].0 == key && seq_has(#[trigger] t[i].1, a);
    let j = choose|j: int| 0 <= j < t[i].1.len() && t[i].1[j] == a;
    lemma_table_aliases_plain(i, j);
    assert(!crate::text::is_whitespace_char(a[0]));
    assert(!crate::text::is_whitespace_char(a.last()));
    crate::text::lemma_trim_of_trimmed(a);
    assert(ascii_upper(a) =~= a);
    if key.len() <= a.len() && a.take(key.len() as int) == key {
        assert(a.take(4)[3] == a[3]);
        assert(a[3] == '_');
    }
}

/// Aliases that are already distinct built-in aliases of `key` come
/// through cleaning unchanged.
proof fn lemma_kept_aliases_fixed(aliases: Seq<Seq<char>>, key: Seq<char>)
    requires
        clean_alias_list(key, aliases),
    ensures
        kept_aliases(aliases, key) == aliases,
    decreases aliases.len(),
{
    if aliases.len() > 0 {
        let prev = aliases.drop_last();
        assert(clean_alias_list(key, prev)) by {
            assert forall|a: int| 0 <= a < prev.len() implies spec_is_supported_alias(
                key,
                #[trigger] prev[a],
            ) by {
                assert(prev[a] == aliases[a]);
            }
            assert forall|a: int, b: int| 0 <= a < b < prev.len() implies (#[trigger] prev[a]) != (
            #[trigger] prev[b]) by {
                assert(prev[a] == aliases[a] && prev[b] == aliases[b]);
            }
        }
        lemma_kept_aliases_fixed(prev, key);
        let last = aliases.last();
        assert(spec_is_supported_alias(key, aliases[aliases.len() - 1]));
        lemma_builtin_alias_fixed(key, last);
        if seq_has(prev, last) {
            let k = choose|k: int| 0 <= k < prev.len() && prev[k] == last;
            assert(aliases[k] != aliases[aliases.len() - 1]);
        }
        assert(prev.push(last) =~= aliases);
    }
}


/// Whether a category key is already in the form cleaning gives keys:
/// not empty, trimmed and upper-cased.
pub open spec fn canonical_key(k: Seq<char>) -> bool {
    k.len() > 0 && ascii_upper(trim_spec(k)) == k
}

proof fn lemma_plain_key_canonical(k: Seq<char>)
    requires
        k.len() > 0,
        forall|c: int|
            0 <= c < k.len() ==> !crate::text::is_whitespace_char(#[trigger] k[c]) && !(
            'a' <= k[c] && k[c] <= 'z'),
    ensures
        canonical_key(k),
{
    assert(!crate::text::is_whitespace_char(k[0]));
    assert(!crate::text::is_whitespace_char(k[k.len() - 1]));
    crate::text::lemma_trim_of_trimmed(k);
    assert(ascii_upper(k) =~= k);
}

proof fn lemma_table_key_canonical(i: int)
    requires
        0 <= i < 13,
    ensures
        canonical_key(canonical_table()[i].0),
{
    reveal_strlit("APP_");
    reveal_strlit("APPS");
    reveal_strlit("PS1_");
    reveal_strlit("EMU_");
    reveal_strlit("GME_");
    reveal_strlit("DST_");
    reveal_strlit("DBG_");
    reveal_strlit("RAA_");
    reveal_strlit("RTE_");
    reveal_strlit("DEFAULT");
    reveal_strlit("SYS_");
    reveal_strlit("ZZY_");
    reveal_strlit("ZZZ_");
    let k = canonical_table()[i].0;
    assert forall|c: int| 0 <= c < k.len() implies !crate::text::is_whitespace_char(#[trigger] k[c])
        && !('a' <= k[c] && k[c] <= 'z') by {}
    lemma_plain_key_canonical(k);
}

proof fn lemma_default_key_canonical()
    ensures
        canonical_key("DEFAULT"@),
{
    reveal_strlit("DEFAULT");
    let k = "DEFAULT"@;
    assert forall|c: int| 0 <= c < k.len() implies !crate::text::is_whitespace_char(#[trigger] k[c])
        && !('a' <= k[c] && k[c] <= 'z') by {}
    lemma_plain_key_canonical(k);
}

proof fn lemma_sanitized_keys_canonical(cats: Seq<CategoryModel>)
    ensures
        forall|i: int|
            0 <= i < sanitized_categories(cats).len() ==> canonical_key(
                (#[trigger] sanitized_categories(cats)[i]).key,
            ),
    decreases cats.len(),
{
    if cats.len() > 0 {
        lemma_sanitized_keys_canonical(cats.drop_last());
        let prev = sanitized_categories(cats.drop_last());
        let k = ascii_upper(trim_spec(cats.last().key));
        crate::text::lemma_upper_trim_canonical(cats.last().key);
        assert forall|i: int| 0 <= i < sanitized_categories(cats).len() implies canonical_key(
            (#[trigger] sanitized_categories(cats)[i]).key,
        ) by {
            if i < prev.len() {
                assert(sanitized_categories(cats)[i] == prev[i]);
            }
        }
    }
}

proof fn lemma_sanitized_categories_fixed(cats: Seq<CategoryModel>)
    requires
        forall|i: int| 0 <= i < cats.len() ==> canonical_key((#[trigger] cats[i]).key),
        forall|i: int, j: int|
            0 <= i < j < cats.len() ==> (#[trigger] cats[i]).key != (#[trigger] cats[j]).key,
        forall|i: int| 0 <= i < cats.len() ==> aliases_clean(#[trigger] cats[i]),
    ensures
        sanitized_categories(cats) == cats,
    decreases cats.len(),
{
    if cats.len() > 0 {
        let p = cats.drop_last();
        assert forall|i: int| 0 <= i < p.len() implies canonical_key((#[trigger] p[i]).key) by {
            assert(p[i] == cats[i]);
        }
        assert forall|i: int, j: int| 0 <= i < j < p.len() implies (#[trigger] p[i]).key != (
        #[trigger] p[j]).key by {
            assert(p[i] == cats[i] && p[j] == cats[j]);
        }
        assert forall|i: int| 0 <= i < p.len() implies aliases_clean(#[trigger] p[i]) by {
            assert(p[i] == cats[i]);
        }
        lemma_sanitized_categories_fixed(p);
        let c = cats.last();
        assert(canonical_key(cats[cats.len() - 1].key));
        assert(aliases_clean(cats[cats.len() - 1]));
        if has_key(p, c.key) {
            let i = choose|i: int| 0 <= i < p.len() && p[i].key == c.key;
            assert(cats[i].key != cats[cats.len() - 1].key);
        }
        lemma_kept_aliases_fixed(c.aliases, c.key);
        assert(p.push(CategoryModel { key: c.key, aliases: c.aliases }) =~= cats);
    }
}

/// Every category key of cleaned rules is its own trim and its own ASCII
/// upper-case form, and holds a character.
pub open spec fn clean_key(k: Seq<char>) -> bool {
    &&& k.len() > 0
    &&& trim_spec(k) == k
    &&& ascii_upper(k) == k
    &&& forall|c: int| 0 <= c < k.len() ==> !('a' <= #[trigger] k[c] && k[c] <= 'z')
}

proof fn lemma_canonical_key_clean(k: Seq<char>)
    requires
        canonical_key(k),
    ensures
        clean_key(k),
{
    crate::text::lemma_upper_trim_canonical(k);
    assert forall|c: int| 0 <= c < k.len() implies !('a' <= #[trigger] k[c] && k[c] <= 'z') by {
        assert(ascii_upper(k)[c] == upper_char(k[c]));
    }
}

/// After cleaning, every category key is trimmed, ASCII upper-case and not
/// empty.
pub proof fn lemma_sanitized_keys_clean(r: RulesModel)
    ensures
        forall|i: int|
            0 <= i < spec_sanitize(r).categories.len() ==> clean_key(
                (#[trigger] spec_sanitize(r).categories[i]).key,
            ),
{
    let s = spec_sanitize(r);
    assert forall|i: int| 0 <= i < s.categories.len() implies clean_key(
        (#[trigger] s.categories[i]).key,
    ) by {
        lemma_sanitized_key_canonical(r, i);
        lemma_canonical_key_clean(s.categories[i].key);
    }
}

proof fn lemma_sanitized_key_canonical(r: RulesModel, i: int)
    requires
        0 <= i < spec_sanitize(r).categories.len(),
    ensures
        canonical_key(spec_sanitize(r).categories[i].key),
{
    let s = spec_sanitize(r);
    if r.categories.len() == 0 {
        lemma_table_key_canonical(i);
        assert(s.categories[i].key == canonical_table()[i].0);
    } else {
        let sc = sanitized_categories(r.categories);
        lemma_sanitized_keys_canonical(r.categories);
        if i < sc.len() {
            assert(s.categories[i] == sc[i]);
        } else {
            lemma_default_key_canonical();
        }
    }
}

/// Cleaning rules twice gives what cleaning them once gives.
pub proof fn lemma_sanitize_idempotent(r: RulesModel)
    ensures
        spec_sanitize(spec_sanitize(r)) == spec_sanitize(r),
{
    let s = spec_sanitize(r);
    lemma_sanitize_well_formed(r);
    assert(s.categories.len() > 0);
    assert forall|i: int| 0 <= i < s.categories.len() implies canonical_key(
        (#[trigger] s.categories[i]).key,
    ) by {
        lemma_sanitized_key_canonical(r, i);
    }
    lemma_sanitized_categories_fixed(s.categories);
    let x = s.seconds_between_items;
    assert(x == 2 * (x / 2));
    assert(((x + 1) / 2) * 2 == x);
}


proof fn lemma_no_alias_from(cats: Seq<CategoryModel>, x: Seq<char>, k: int)
    requires
        0 <= k,
        forall|j: int| 0 <= j < cats.len() ==> !seq_has((#[trigger] cats[j]).aliases, x),
    ensures
        first_alias_from(cats, x, k) is None,
    decreases cats.len() - k,
{
    if k < cats.len() {
        assert(!seq_has(cats[k].aliases, x));
        lemma_no_alias_from(cats, x, k + 1);
    }
}

proof fn lemma_first_alias_found(cats: Seq<CategoryModel>, x: Seq<char>, k: int)
    requires
        0 <= k,
    ensures
        first_alias_from(cats, x, k) matches Some(i) ==> k <= i < cats.len() && seq_has(
            cats[i].aliases,
            x,
        ),
    decreases cats.len() - k,
{
    if k < cats.len() {
        lemma_first_alias_found(cats, x, k + 1);
    }
}

proof fn lemma_table_key_of_alias(key: Seq<char>, a: Seq<char>)
    requires
        spec_is_supported_alias(key, a),
    ensures
        upper_letters(a),
        a.len() > 0,
        key.len() == 4,
        key[3] == '_',
        canonical_key(key),
{
    let t = canonical_table();
    lemma_lookup_member(t, key, a);
    let i = choose|i: int| 0 <= i < t.len() && t[i].0 == key && seq_has(#[trigger] t[i].1, a);
    let j = choose|j: int| 0 <= j < t[i].1.len() && t[i].1[j] == a;
    lemma_table_aliases_plain(i, j);
    lemma_table_key_canonical(i);
}

/// Under well-formed rules a name that is an alias of a prefixed category
/// is normalised exactly as the category's prefix followed by the name:
/// `osdxmb` and `APP_OSDXMB` fall on the same slot.
pub proof fn lemma_alias_names_prefixed(r: RulesModel, name: Seq<char>, i: int)
    requires
        rules_well_formed(r),
        trim_spec(name).len() > 0,
        first_alias_from(r.categories, ascii_upper(trim_spec(name)), 0) == Some(i),
        r.categories[i].key != "APPS"@,
        r.categories[i].key != "DEFAULT"@,
    ensures
        spec_normalize_name(r.categories[i].key + ascii_upper(trim_spec(name)), r)
            == spec_normalize_name(name, r),
{
    let up = ascii_upper(trim_spec(name));
    lemma_first_alias_found(r.categories, up, 0);
    let c = r.categories[i];
    let key = c.key;
    assert(aliases_clean(r.categories[i]));
    let ai = choose|ai: int| 0 <= ai < c.aliases.len() && c.aliases[ai] == up;
    assert(spec_is_supported_alias(key, c.aliases[ai]));
    lemma_table_key_of_alias(key, up);
    let p = key + up;
    crate::text::lemma_trim_ends(key);
    let tk = trim_spec(key);
    assert(tk.len() > 0);
    crate::text::lemma_upper_keeps_whitespace(tk[0]);
    assert(key[0] == crate::text::upper_char(tk[0]));
    assert(p[0] == key[0]);
    assert(p.last() == up.last());
    assert(!crate::text::is_whitespace_char(up.last()));
    crate::text::lemma_trim_of_trimmed(p);
    crate::text::lemma_upper_trim_canonical(key);
    assert(trim_spec(key) =~= tk);
    assert forall|x: int| 0 <= x < p.len() implies #[trigger] crate::text::upper_char(p[x])
        == p[x] by {
        if x < key.len() {
            assert(key[x] == crate::text::upper_char(tk[x]));
            crate::text::lemma_upper_keeps_whitespace(tk[x]);
        } else {
            assert(p[x] == up[x - key.len()]);
        }
    }
    assert(ascii_upper(p) =~= p);
    assert forall|j: int| 0 <= j < r.categories.len() implies !seq_has(
        (#[trigger] r.categories[j]).aliases,
        p,
    ) by {
        if seq_has(r.categories[j].aliases, p) {
            assert(aliases_clean(r.categories[j]));
            let b = choose|b: int|
                0 <= b < r.categories[j].aliases.len() && r.categories[j].aliases[b] == p;
            assert(spec_is_supported_alias(r.categories[j].key, r.categories[j].aliases[b]));
            lemma_table_key_of_alias(r.categories[j].key, p);
            assert(p[3] == key[3]);
        }
    }
    lemma_no_alias_from(r.categories, p, 0);
}

} // verus!
