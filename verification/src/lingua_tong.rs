//! LinguaTong -- i18n localisation: translation lookup, locale management and
//! right-to-left detection.
//!
//! The active locale and the loaded translation tables are held in a
//! [`LinguaTong`] value; an application keeps one for the whole process.

use vstd::prelude::*;
use crate::text::{replace_all, replace_str, str_eq};

verus! {

/// The locale and the translation tables, as plain values: the locale if one
/// was set, and for each locale its table from keys to translated texts.
pub struct LocaleView {
    pub locale: Option<Seq<char>>,
    pub tables: Map<Seq<char>, Map<Seq<char>, Seq<char>>>,
}

/// The pairs of a list of string pairs, as character sequences.
pub open spec fn pair_views(v: Seq<(String, String)>) -> Seq<(Seq<char>, Seq<char>)> {
    v.map_values(|p: (String, String)| (p.0@, p.1@))
}

/// The table built by inserting the pairs in order (a later key replaces an
/// earlier one).
pub open spec fn pairs_map(v: Seq<(Seq<char>, Seq<char>)>) -> Map<Seq<char>, Seq<char>>
    decreases v.len(),
{
    if v.len() == 0 {
        Map::empty()
    } else {
        pairs_map(v.drop_last()).insert(v.last().0, v.last().1)
    }
}

/// The tables built by loading the tables in order (a later load for a locale
/// replaces an earlier one).
pub open spec fn tables_map(v: Seq<(String, Vec<(String, String)>)>) -> Map<Seq<char>, Map<Seq<char>, Seq<char>>>
    decreases v.len(),
{
    if v.len() == 0 {
        Map::empty()
    } else {
        tables_map(v.drop_last()).insert(v.last().0@, pairs_map(pair_views(v.last().1@)))
    }
}

/// The locale and the loaded translation tables.
pub struct LinguaTong {
    locale: Option<String>,
    tables: Vec<(String, Vec<(String, String)>)>,
}

impl View for LinguaTong {
    type V = LocaleView;

    closed spec fn view(&self) -> LocaleView {
        LocaleView {
            locale: match self.locale {
                Some(l) => Some(l@),
                None => None,
            },
            tables: tables_map(self.tables@),
        }
    }
}

impl LinguaTong {
    /// No locale set and no translations loaded.
    pub fn new() -> (r: Self)
        ensures
            r@.locale is None,
            r@.tables == Map::<Seq<char>, Map<Seq<char>, Seq<char>>>::empty(),
    {
        LinguaTong { locale: None, tables: Vec::new() }
    }
}

/// The active locale: the one set, else English.
pub open spec fn active_locale(v: LocaleView) -> Seq<char> {
    match v.locale {
        Some(l) => l,
        None => "en"@,
    }
}

/// Whether the table of `locale` has `key`.
pub open spec fn has_translation(v: LocaleView, locale: Seq<char>, key: Seq<char>) -> bool {
    v.tables.contains_key(locale) && v.tables[locale].contains_key(key)
}

/// The translation of `key`: from the active locale's table, else from the
/// English table, else the key itself.
pub open spec fn translate(v: LocaleView, key: Seq<char>) -> Seq<char> {
    let loc = active_locale(v);
    if has_translation(v, loc, key) {
        v.tables[loc][key]
    } else if loc != "en"@ && has_translation(v, "en"@, key) {
        v.tables["en"@][key]
    } else {
        key
    }
}

/// The placeholder `{name}`.
pub open spec fn placeholder(name: Seq<char>) -> Seq<char> {
    "{"@ + name + "}"@
}

/// `text` with the placeholders of the arguments replaced, argument by
/// argument.
pub open spec fn interpolate(text: Seq<char>, args: Seq<(Seq<char>, Seq<char>)>) -> Seq<char>
    decreases args.len(),
{
    if args.len() == 0 {
        text
    } else {
        replace_all(interpolate(text, args.drop_last()), placeholder(args.last().0), args.last().1)
    }
}

/// The locales written right to left.
pub open spec fn is_rtl_locale(l: Seq<char>) -> bool {
    l == "ar"@ || l == "he"@ || l == "fa"@ || l == "ur"@
}

/// Set the active locale. Should be called once at app startup: the first
/// locale set stays, later calls change nothing.
pub fn set_locale(lt: &mut LinguaTong, locale: &str)
    ensures
        final(lt)@.tables == old(lt)@.tables,
        final(lt)@.locale == (match old(lt)@.locale {
            Some(l) => Some(l),
            None => Some(locale@),
        }),
{
    if lt.locale.is_none() {
        lt.locale = Some(locale.to_string());
    }
}

/// Get the current locale ("en" when none was set).
pub fn current_locale(lt: &LinguaTong) -> (r: String)
    ensures
        r@ == active_locale(lt@),
{
    match &lt.locale {
        Some(l) => l.clone(),
        None => "en".to_string(),
    }
}

/// Load the translations for a locale, replacing any loaded before for it.
/// The table is given as key-value pairs; a later pair for a key replaces an
/// earlier one.
pub fn load_translations(lt: &mut LinguaTong, locale: &str, table: Vec<(String, String)>)
    ensures
        final(lt)@.locale == old(lt)@.locale,
        final(lt)@.tables == old(lt)@.tables.insert(locale@, pairs_map(pair_views(table@))),
{
    let ghost before = lt.tables@;
    lt.tables.push((locale.to_string(), table));
    assert(lt.tables@.drop_last() =~= before);
}

/// The value of `key` in the last pair that has it.
fn lookup_pairs(pairs: &Vec<(String, String)>, key: &str) -> (r: Option<String>)
    ensures
        r is Some <==> pairs_map(pair_views(pairs@)).contains_key(key@),
        r is Some ==> r->0@ == pairs_map(pair_views(pairs@))[key@],
{
    let mut i: usize = pairs.len();
    assert(pairs@.take(i as int) =~= pairs@);
    while i > 0
        invariant
            i <= pairs@.len(),
            pairs_map(pair_views(pairs@)).contains_key(key@) == pairs_map(pair_views(pairs@.take(i as int))).contains_key(key@),
            pairs_map(pair_views(pairs@)).contains_key(key@) ==> pairs_map(pair_views(pairs@))[key@] == pairs_map(pair_views(pairs@.take(i as int)))[key@],
        decreases i,
    {
        let ghost pre = pairs@.take(i as int);
        assert(pair_views(pre).drop_last() =~= pair_views(pairs@.take(i - 1)));
        assert(pair_views(pre).last() == (pairs@[i - 1].0@, pairs@[i - 1].1@));
        if str_eq(pairs[i - 1].0.as_str(), key) {
            return Some(pairs[i - 1].1.clone());
        }
        i = i - 1;
    }
    assert(pair_views(pairs@.take(0)) =~= Seq::<(Seq<char>, Seq<char>)>::empty());
    None
}

/// The translation of `key` in the table of `locale`, if it has one.
fn lookup(lt: &LinguaTong, locale: &str, key: &str) -> (r: Option<String>)
    ensures
        r is Some <==> has_translation(lt@, locale@, key@),
        r is Some ==> r->0@ == lt@.tables[locale@][key@],
{
    let mut i: usize = lt.tables.len();
    assert(lt.tables@.take(i as int) =~= lt.tables@);
    while i > 0
        invariant
            i <= lt.tables@.len(),
            tables_map(lt.tables@).contains_key(locale@) == tables_map(lt.tables@.take(i as int)).contains_key(locale@),
            tables_map(lt.tables@).contains_key(locale@) ==> tables_map(lt.tables@)[locale@] == tables_map(lt.tables@.take(i as int))[locale@],
        decreases i,
    {
        let ghost pre = lt.tables@.take(i as int);
        assert(pre.drop_last() =~= lt.tables@.take(i - 1));
        if str_eq(lt.tables[i - 1].0.as_str(), locale) {
            return lookup_pairs(&lt.tables[i - 1].1, key);
        }
        i = i - 1;
    }
    assert(lt.tables@.take(0) =~= Seq::<(String, Vec<(String, String)>)>::empty());
    None
}

/// Look up a translation key: the active locale's text, else the English one,
/// else the key itself.
pub fn t(lt: &LinguaTong, key: &str) -> (r: String)
    ensures
        r@ == translate(lt@, key@),
{
    let locale = current_locale(lt);
    match lookup(lt, locale.as_str(), key) {
        Some(v) => {
            return v;
        },
        None => {},
    }
    if !str_eq(locale.as_str(), "en") {
        match lookup(lt, "en", key) {
            Some(v) => {
                return v;
            },
            None => {},
        }
    }
    key.to_string()
}

/// Look up a translation and fill in its placeholders: for each argument in
/// turn, every `{name}` is replaced by the value.
pub fn t_with(lt: &LinguaTong, key: &str, args: &[(&str, &str)]) -> (r: String)
    ensures
        r@ == interpolate(translate(lt@, key@), args@.map_values(|a: (&str, &str)| (a.0@, a.1@))),
{
    let ghost argv = args@.map_values(|a: (&str, &str)| (a.0@, a.1@));
    let mut result = t(lt, key);
    let n = args.len();
    let mut i: usize = 0;
    assert(argv.take(0) =~= Seq::<(Seq<char>, Seq<char>)>::empty());
    while i < n
        invariant
            n == args@.len(),
            i <= n,
            argv == args@.map_values(|a: (&str, &str)| (a.0@, a.1@)),
            result@ == interpolate(translate(lt@, key@), argv.take(i as int)),
        decreases n - i,
    {
        let (name, value) = args[i];
        let mut pat = "{".to_string();
        pat.append(name);
        pat.append("}");
        proof { reveal_strlit("{"); reveal_strlit("}"); }
        assert(pat@ == placeholder(name@));
        assert(argv.take(i + 1).drop_last() =~= argv.take(i as int));
        assert(argv.take(i + 1).last() == (name@, value@));
        result = replace_str(result.as_str(), pat.as_str(), value);
        i = i + 1;
    }
    assert(argv.take(n as int) =~= argv);
    result
}

/// A key that neither the active locale's table nor the English table has is
/// its own translation.
pub proof fn law_missing_key_is_its_own_translation(v: LocaleView, key: Seq<char>)
    requires
        !has_translation(v, active_locale(v), key),
        !has_translation(v, "en"@, key),
    ensures
        translate(v, key) == key,
{
}

/// After the table of the active locale is loaded, a key that the table has
/// translates to the table's text for it.
pub proof fn law_loaded_table_is_used(v: LocaleView, pairs: Seq<(Seq<char>, Seq<char>)>, key: Seq<char>)
    requires
        pairs_map(pairs).contains_key(key),
    ensures
        translate(
            LocaleView { locale: v.locale, tables: v.tables.insert(active_locale(v), pairs_map(pairs)) },
            key,
        ) == pairs_map(pairs)[key],
{
}

/// In another locale than English, a key missing from the active table takes
/// the English text when the English table has it.
pub proof fn law_english_is_the_fallback(v: LocaleView, key: Seq<char>)
    requires
        active_locale(v) != "en"@,
        !has_translation(v, active_locale(v), key),
        has_translation(v, "en"@, key),
    ensures
        translate(v, key) == v.tables["en"@][key],
{
}

/// Without arguments, interpolation leaves the text as it is, so `t_with` with
/// no arguments gives what `t` gives.
pub proof fn law_no_arguments_no_change(text: Seq<char>)
    ensures
        interpolate(text, Seq::empty()) == text,
{
}

/// Look up a translation and use `default` where the key has no translation
/// (that is, where the lookup gives back the key itself).
pub fn t_or(lt: &LinguaTong, key: &str, default: &str) -> (r: String)
    ensures
        r@ == (if translate(lt@, key@) == key@ { default@ } else { translate(lt@, key@) }),
{
    let result = t(lt, key);
    if str_eq(result.as_str(), key) {
        default.to_string()
    } else {
        result
    }
}

/// Detect if the current locale uses right-to-left text.
pub fn is_rtl(lt: &LinguaTong) -> (r: bool)
    ensures
        r == is_rtl_locale(active_locale(lt@)),
{
    let locale = current_locale(lt);
    let l = locale.as_str();
    str_eq(l, "ar") || str_eq(l, "he") || str_eq(l, "fa") || str_eq(l, "ur")
}

/// The keys of a list of pairs, in order.
pub open spec fn pair_keys(v: Seq<(Seq<char>, Seq<char>)>) -> Seq<Seq<char>> {
    v.map_values(|p: (Seq<char>, Seq<char>)| p.0)
}

/// Two lists of pairs with the same keys, in the same order, build tables
/// with the same keys.
proof fn lemma_same_keys_same_domain(a: Seq<(Seq<char>, Seq<char>)>, b: Seq<(Seq<char>, Seq<char>)>)
    requires
        pair_keys(a) == pair_keys(b),
    ensures
        pairs_map(a).dom() == pairs_map(b).dom(),
    decreases a.len(),
{
    assert(a.len() == pair_keys(a).len());
    assert(b.len() == pair_keys(b).len());
    if a.len() > 0 {
        assert(pair_keys(a.drop_last()) =~= pair_keys(a).drop_last());
        assert(pair_keys(b.drop_last()) =~= pair_keys(b).drop_last());
        lemma_same_keys_same_domain(a.drop_last(), b.drop_last());
        assert(a.last().0 == pair_keys(a)[a.len() - 1]);
        assert(b.last().0 == pair_keys(b)[b.len() - 1]);
        assert(pairs_map(a).dom() =~= pairs_map(b).dom());
    }
}

/// The Japanese component table has exactly the keys of the English one.
pub proof fn law_japanese_keys_match_english()
    ensures
        pairs_map(japanese_component_pairs()).dom() == pairs_map(english_component_pairs()).dom(),
{
    assert(pair_keys(japanese_component_pairs()) =~= pair_keys(english_component_pairs()));
    lemma_same_keys_same_domain(japanese_component_pairs(), english_component_pairs());
}

fn push_pair(v: &mut Vec<(String, String)>, key: &str, value: &str)
    ensures
        pair_views(final(v)@) == pair_views(old(v)@).push((key@, value@)),
{
    let ghost before = v@;
    v.push((key.to_string(), value.to_string()));
    assert(pair_views(v@) =~= pair_views(before).push((key@, value@)));
}

/// The English texts of the component strings.
pub open spec fn english_component_pairs() -> Seq<(Seq<char>, Seq<char>)> {
    seq![
        ("phasegate.tooltip"@, "Tooltip"@),
        ("phasegate.dropdown"@, "Dropdown"@),
        ("phasegate.modal"@, "Modal"@),
        ("phasegate.toast"@, "Toast"@),
        ("tokenstream.streaming"@, "Streaming..."@),
        ("tokenstream.complete"@, "Complete"@),
        ("trustmark.high"@, "High confidence"@),
        ("trustmark.medium"@, "Moderate confidence"@),
        ("trustmark.low"@, "Low confidence - verify"@),
        ("trustmark.verylow"@, "Speculative - unreliable"@),
        ("trustmark.unknown"@, "Confidence unknown"@),
        ("dropvault.drop_here"@, "Drop files here"@),
        ("dropvault.browse"@, "Drag files here or click to browse"@),
        ("dropvault.waiting"@, "Waiting..."@),
        ("dropvault.done"@, "Done"@),
        ("consentgate.title"@, "Data Usage Consent"@),
        ("consentgate.accept"@, "Accept"@),
        ("consentgate.reject"@, "Reject"@),
        ("consentgate.data_label"@, "Data: {data}"@),
        ("consentgate.purpose_label"@, "Purpose: {purpose}"@),
        ("consentgate.data_used"@, "Data used:"@),
        ("consentgate.items_count"@, "({count} items)"@),
        ("awaitveil.loading"@, "Loading..."@),
        ("dialog.cancel"@, "Cancel"@),
        ("dialog.delete"@, "Delete"@),
        ("dialog.ok"@, "OK"@),
        ("dialog.confirm"@, "Confirm"@),
        ("datepicker.placeholder"@, "Select date..."@),
        ("datepicker.range_placeholder"@, "Select range..."@),
        ("datepicker.label"@, "Date picker"@),
        ("datepicker.format"@, "DD/MM/YYYY"@),
        ("datepicker.month.january"@, "January"@),
        ("datepicker.month.february"@, "February"@),
        ("datepicker.month.march"@, "March"@),
        ("datepicker.month.april"@, "April"@),
        ("datepicker.month.may"@, "May"@),
        ("datepicker.month.june"@, "June"@),
        ("datepicker.month.july"@, "July"@),
        ("datepicker.month.august"@, "August"@),
        ("datepicker.month.september"@, "September"@),
        ("datepicker.month.october"@, "October"@),
        ("datepicker.month.november"@, "November"@),
        ("datepicker.month.december"@, "December"@),
        ("datepicker.day.su"@, "Su"@),
        ("datepicker.day.mo"@, "Mo"@),
        ("datepicker.day.tu"@, "Tu"@),
        ("datepicker.day.we"@, "We"@),
        ("datepicker.day.th"@, "Th"@),
        ("datepicker.day.fr"@, "Fr"@),
        ("datepicker.day.sa"@, "Sa"@),
        ("datepicker.month.jan"@, "Jan"@),
        ("datepicker.month.feb"@, "Feb"@),
        ("datepicker.month.mar"@, "Mar"@),
        ("datepicker.month.apr"@, "Apr"@),
        ("datepicker.month.may_short"@, "May"@),
        ("datepicker.month.jun"@, "Jun"@),
        ("datepicker.month.jul"@, "Jul"@),
        ("datepicker.month.aug"@, "Aug"@),
        ("datepicker.month.sep"@, "Sep"@),
        ("datepicker.month.oct"@, "Oct"@),
        ("datepicker.month.nov"@, "Nov"@),
        ("datepicker.month.dec"@, "Dec"@),
    ]
}

/// The Japanese texts of the component strings.
pub open spec fn japanese_component_pairs() -> Seq<(Seq<char>, Seq<char>)> {
    seq![
        ("phasegate.tooltip"@, "ツールチップ"@),
        ("phasegate.dropdown"@, "ドロップダウン"@),
        ("phasegate.modal"@, "モーダル"@),
        ("phasegate.toast"@, "トースト"@),
        ("tokenstream.streaming"@, "ストリーミング中..."@),
        ("tokenstream.complete"@, "完了"@),
        ("trustmark.high"@, "高い信頼性"@),
        ("trustmark.medium"@, "中程度の信頼性"@),
        ("trustmark.low"@, "低い信頼性 - 要確認"@),
        ("trustmark.verylow"@, "推測 - 信頼できない"@),
        ("trustmark.unknown"@, "信頼性不明"@),
        ("dropvault.drop_here"@, "ここにファイルをドロップ"@),
        ("dropvault.browse"@, "ここにファイルをドラッグするか、クリックして参照"@),
        ("dropvault.waiting"@, "待機中..."@),
        ("dropvault.done"@, "完了"@),
        ("consentgate.title"@, "データ利用の同意"@),
        ("consentgate.accept"@, "同意する"@),
        ("consentgate.reject"@, "拒否する"@),
        ("consentgate.data_label"@, "データ: {data}"@),
        ("consentgate.purpose_label"@, "目的: {purpose}"@),
        ("consentgate.data_used"@, "使用データ:"@),
        ("consentgate.items_count"@, "({count} 件)"@),
        ("awaitveil.loading"@, "読み込み中..."@),
        ("dialog.cancel"@, "キャンセル"@),
        ("dialog.delete"@, "削除"@),
        ("dialog.ok"@, "OK"@),
        ("dialog.confirm"@, "確認"@),
        ("datepicker.placeholder"@, "日付を選択..."@),
        ("datepicker.range_placeholder"@, "範囲を選択..."@),
        ("datepicker.label"@, "日付ピッカー"@),
        ("datepicker.format"@, "YYYY/MM/DD"@),
        ("datepicker.month.january"@, "1月"@),
        ("datepicker.month.february"@, "2月"@),
        ("datepicker.month.march"@, "3月"@),
        ("datepicker.month.april"@, "4月"@),
        ("datepicker.month.may"@, "5月"@),
        ("datepicker.month.june"@, "6月"@),
        ("datepicker.month.july"@, "7月"@),
        ("datepicker.month.august"@, "8月"@),
        ("datepicker.month.september"@, "9月"@),
        ("datepicker.month.october"@, "10月"@),
        ("datepicker.month.november"@, "11月"@),
        ("datepicker.month.december"@, "12月"@),
        ("datepicker.day.su"@, "日"@),
        ("datepicker.day.mo"@, "月"@),
        ("datepicker.day.tu"@, "火"@),
        ("datepicker.day.we"@, "水"@),
        ("datepicker.day.th"@, "木"@),
        ("datepicker.day.fr"@, "金"@),
        ("datepicker.day.sa"@, "土"@),
        ("datepicker.month.jan"@, "1月"@),
        ("datepicker.month.feb"@, "2月"@),
        ("datepicker.month.mar"@, "3月"@),
        ("datepicker.month.apr"@, "4月"@),
        ("datepicker.month.may_short"@, "5月"@),
        ("datepicker.month.jun"@, "6月"@),
        ("datepicker.month.jul"@, "7月"@),
        ("datepicker.month.aug"@, "8月"@),
        ("datepicker.month.sep"@, "9月"@),
        ("datepicker.month.oct"@, "10月"@),
        ("datepicker.month.nov"@, "11月"@),
        ("datepicker.month.dec"@, "12月"@),
    ]
}

/// The English texts of the common UI strings.
pub open spec fn english_common_pairs() -> Seq<(Seq<char>, Seq<char>)> {
    seq![
        ("action.ok"@, "OK"@),
        ("action.cancel"@, "Cancel"@),
        ("action.save"@, "Save"@),
        ("action.delete"@, "Delete"@),
        ("action.edit"@, "Edit"@),
        ("action.create"@, "Create"@),
        ("action.submit"@, "Submit"@),
        ("action.close"@, "Close"@),
        ("action.back"@, "Back"@),
        ("action.next"@, "Next"@),
        ("action.search"@, "Search"@),
        ("action.filter"@, "Filter"@),
        ("action.refresh"@, "Refresh"@),
        ("nav.home"@, "Home"@),
        ("nav.settings"@, "Settings"@),
        ("nav.profile"@, "Profile"@),
        ("nav.logout"@, "Sign out"@),
        ("status.loading"@, "Loading..."@),
        ("status.error"@, "Error"@),
        ("status.success"@, "Success"@),
        ("status.empty"@, "No data"@),
    ]
}

/// Initialize with English translations for all new component strings.
pub fn init_english_translations(lt: &mut LinguaTong)
    ensures
        final(lt)@.locale == old(lt)@.locale,
        final(lt)@.tables == old(lt)@.tables.insert("en"@, pairs_map(english_component_pairs())),
{
    let mut table: Vec<(String, String)> = Vec::new();
    push_pair(&mut table, "phasegate.tooltip", "Tooltip");
    push_pair(&mut table, "phasegate.dropdown", "Dropdown");
    push_pair(&mut table, "phasegate.modal", "Modal");
    push_pair(&mut table, "phasegate.toast", "Toast");
    push_pair(&mut table, "tokenstream.streaming", "Streaming...");
    push_pair(&mut table, "tokenstream.complete", "Complete");
    push_pair(&mut table, "trustmark.high", "High confidence");
    push_pair(&mut table, "trustmark.medium", "Moderate confidence");
    push_pair(&mut table, "trustmark.low", "Low confidence - verify");
    push_pair(&mut table, "trustmark.verylow", "Speculative - unreliable");
    push_pair(&mut table, "trustmark.unknown", "Confidence unknown");
    push_pair(&mut table, "dropvault.drop_here", "Drop files here");
    push_pair(&mut table, "dropvault.browse", "Drag files here or click to browse");
    push_pair(&mut table, "dropvault.waiting", "Waiting...");
    push_pair(&mut table, "dropvault.done", "Done");
    push_pair(&mut table, "consentgate.title", "Data Usage Consent");
    push_pair(&mut table, "consentgate.accept", "Accept");
    push_pair(&mut table, "consentgate.reject", "Reject");
    push_pair(&mut table, "consentgate.data_label", "Data: {data}");
    push_pair(&mut table, "consentgate.purpose_label", "Purpose: {purpose}");
    push_pair(&mut table, "consentgate.data_used", "Data used:");
    push_pair(&mut table, "consentgate.items_count", "({count} items)");
    push_pair(&mut table, "awaitveil.loading", "Loading...");
    push_pair(&mut table, "dialog.cancel", "Cancel");
    push_pair(&mut table, "dialog.delete", "Delete");
    push_pair(&mut table, "dialog.ok", "OK");
    push_pair(&mut table, "dialog.confirm", "Confirm");
    push_pair(&mut table, "datepicker.placeholder", "Select date...");
    push_pair(&mut table, "datepicker.range_placeholder", "Select range...");
    push_pair(&mut table, "datepicker.label", "Date picker");
    push_pair(&mut table, "datepicker.format", "DD/MM/YYYY");
    push_pair(&mut table, "datepicker.month.january", "January");
    push_pair(&mut table, "datepicker.month.february", "February");
    push_pair(&mut table, "datepicker.month.march", "March");
    push_pair(&mut table, "datepicker.month.april", "April");
    push_pair(&mut table, "datepicker.month.may", "May");
    push_pair(&mut table, "datepicker.month.june", "June");
    push_pair(&mut table, "datepicker.month.july", "July");
    push_pair(&mut table, "datepicker.month.august", "August");
    push_pair(&mut table, "datepicker.month.september", "September");
    push_pair(&mut table, "datepicker.month.october", "October");
    push_pair(&mut table, "datepicker.month.november", "November");
    push_pair(&mut table, "datepicker.month.december", "December");
    push_pair(&mut table, "datepicker.day.su", "Su");
    push_pair(&mut table, "datepicker.day.mo", "Mo");
    push_pair(&mut table, "datepicker.day.tu", "Tu");
    push_pair(&mut table, "datepicker.day.we", "We");
    push_pair(&mut table, "datepicker.day.th", "Th");
    push_pair(&mut table, "datepicker.day.fr", "Fr");
    push_pair(&mut table, "datepicker.day.sa", "Sa");
    push_pair(&mut table, "datepicker.month.jan", "Jan");
    push_pair(&mut table, "datepicker.month.feb", "Feb");
    push_pair(&mut table, "datepicker.month.mar", "Mar");
    push_pair(&mut table, "datepicker.month.apr", "Apr");
    push_pair(&mut table, "datepicker.month.may_short", "May");
    push_pair(&mut table, "datepicker.month.jun", "Jun");
    push_pair(&mut table, "datepicker.month.jul", "Jul");
    push_pair(&mut table, "datepicker.month.aug", "Aug");
    push_pair(&mut table, "datepicker.month.sep", "Sep");
    push_pair(&mut table, "datepicker.month.oct", "Oct");
    push_pair(&mut table, "datepicker.month.nov", "Nov");
    push_pair(&mut table, "datepicker.month.dec", "Dec");
    assert(pair_views(table@) =~= english_component_pairs());
    load_translations(lt, "en", table);
}

/// Initialize with Japanese translations.
#[verifier::rlimit(60)]
pub fn init_japanese_translations(lt: &mut LinguaTong)
    ensures
        final(lt)@.locale == old(lt)@.locale,
        final(lt)@.tables == old(lt)@.tables.insert("ja"@, pairs_map(japanese_component_pairs())),
{
    let mut table: Vec<(String, String)> = Vec::new();
    push_pair(&mut table, "phasegate.tooltip", "ツールチップ");
    push_pair(&mut table, "phasegate.dropdown", "ドロップダウン");
    push_pair(&mut table, "phasegate.modal", "モーダル");
    push_pair(&mut table, "phasegate.toast", "トースト");
    push_pair(&mut table, "tokenstream.streaming", "ストリーミング中...");
    push_pair(&mut table, "tokenstream.complete", "完了");
    push_pair(&mut table, "trustmark.high", "高い信頼性");
    push_pair(&mut table, "trustmark.medium", "中程度の信頼性");
    push_pair(&mut table, "trustmark.low", "低い信頼性 - 要確認");
    push_pair(&mut table, "trustmark.verylow", "推測 - 信頼できない");
    push_pair(&mut table, "trustmark.unknown", "信頼性不明");
    push_pair(&mut table, "dropvault.drop_here", "ここにファイルをドロップ");
    push_pair(&mut table, "dropvault.browse", "ここにファイルをドラッグするか、クリックして参照");
    push_pair(&mut table, "dropvault.waiting", "待機中...");
    push_pair(&mut table, "dropvault.done", "完了");
    push_pair(&mut table, "consentgate.title", "データ利用の同意");
    push_pair(&mut table, "consentgate.accept", "同意する");
    push_pair(&mut table, "consentgate.reject", "拒否する");
    push_pair(&mut table, "consentgate.data_label", "データ: {data}");
    push_pair(&mut table, "consentgate.purpose_label", "目的: {purpose}");
    push_pair(&mut table, "consentgate.data_used", "使用データ:");
    push_pair(&mut table, "consentgate.items_count", "({count} 件)");
    push_pair(&mut table, "awaitveil.loading", "読み込み中...");
    push_pair(&mut table, "dialog.cancel", "キャンセル");
    push_pair(&mut table, "dialog.delete", "削除");
    push_pair(&mut table, "dialog.ok", "OK");
    push_pair(&mut table, "dialog.confirm", "確認");
    push_pair(&mut table, "datepicker.placeholder", "日付を選択...");
    push_pair(&mut table, "datepicker.range_placeholder", "範囲を選択...");
    push_pair(&mut table, "datepicker.label", "日付ピッカー");
    push_pair(&mut table, "datepicker.format", "YYYY/MM/DD");
    push_pair(&mut table, "datepicker.month.january", "1月");
    push_pair(&mut table, "datepicker.month.february", "2月");
    push_pair(&mut table, "datepicker.month.march", "3月");
    push_pair(&mut table, "datepicker.month.april", "4月");
    push_pair(&mut table, "datepicker.month.may", "5月");
    push_pair(&mut table, "datepicker.month.june", "6月");
    push_pair(&mut table, "datepicker.month.july", "7月");
    push_pair(&mut table, "datepicker.month.august", "8月");
    push_pair(&mut table, "datepicker.month.september", "9月");
    push_pair(&mut table, "datepicker.month.october", "10月");
    push_pair(&mut table, "datepicker.month.november", "11月");
    push_pair(&mut table, "datepicker.month.december", "12月");
    push_pair(&mut table, "datepicker.day.su", "日");
    push_pair(&mut table, "datepicker.day.mo", "月");
    push_pair(&mut table, "datepicker.day.tu", "火");
    push_pair(&mut table, "datepicker.day.we", "水");
    push_pair(&mut table, "datepicker.day.th", "木");
    push_pair(&mut table, "datepicker.day.fr", "金");
    push_pair(&mut table, "datepicker.day.sa", "土");
    push_pair(&mut table, "datepicker.month.jan", "1月");
    push_pair(&mut table, "datepicker.month.feb", "2月");
    push_pair(&mut table, "datepicker.month.mar", "3月");
    push_pair(&mut table, "datepicker.month.apr", "4月");
    push_pair(&mut table, "datepicker.month.may_short", "5月");
    push_pair(&mut table, "datepicker.month.jun", "6月");
    push_pair(&mut table, "datepicker.month.jul", "7月");
    push_pair(&mut table, "datepicker.month.aug", "8月");
    push_pair(&mut table, "datepicker.month.sep", "9月");
    push_pair(&mut table, "datepicker.month.oct", "10月");
    push_pair(&mut table, "datepicker.month.nov", "11月");
    push_pair(&mut table, "datepicker.month.dec", "12月");
    assert(pair_views(table@) =~= japanese_component_pairs());
    load_translations(lt, "ja", table);
}

/// Helper to initialize English translations with common UI strings.
/// Call this at app startup before using any components with i18n labels.
pub fn init_english(lt: &mut LinguaTong)
    ensures
        final(lt)@.locale == old(lt)@.locale,
        final(lt)@.tables == old(lt)@.tables.insert("en"@, pairs_map(english_common_pairs())),
{
    let mut table: Vec<(String, String)> = Vec::new();
    push_pair(&mut table, "action.ok", "OK");
    push_pair(&mut table, "action.cancel", "Cancel");
    push_pair(&mut table, "action.save", "Save");
    push_pair(&mut table, "action.delete", "Delete");
    push_pair(&mut table, "action.edit", "Edit");
    push_pair(&mut table, "action.create", "Create");
    push_pair(&mut table, "action.submit", "Submit");
    push_pair(&mut table, "action.close", "Close");
    push_pair(&mut table, "action.back", "Back");
    push_pair(&mut table, "action.next", "Next");
    push_pair(&mut table, "action.search", "Search");
    push_pair(&mut table, "action.filter", "Filter");
    push_pair(&mut table, "action.refresh", "Refresh");
    push_pair(&mut table, "nav.home", "Home");
    push_pair(&mut table, "nav.settings", "Settings");
    push_pair(&mut table, "nav.profile", "Profile");
    push_pair(&mut table, "nav.logout", "Sign out");
    push_pair(&mut table, "status.loading", "Loading...");
    push_pair(&mut table, "status.error", "Error");
    push_pair(&mut table, "status.success", "Success");
    push_pair(&mut table, "status.empty", "No data");
    assert(pair_views(table@) =~= english_common_pairs());
    load_translations(lt, "en", table);
}

} // verus!
