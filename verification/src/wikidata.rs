//! Wikidata claims of a category: what is asked for, and how it is shown.

use vstd::prelude::*;
use vstd::string::*;
use crate::commons::push_pair;
use crate::commons;
use crate::commons_cache::Cache;
use crate::escaping;
use crate::numbers;
use crate::ordering;
use crate::telegram::{escape_text, html_link};
use crate::telegram;
use crate::text;

verus! {

/// Address of the Wikidata API.
pub const WIKIDATA_API_URL: &'static str = "https://www.wikidata.org/w/api.php";

/// Number of entities that are asked for at once.
pub const WIKIDATA_ENTITY_BATCH_SIZE: usize = 50;

/// Number of properties that are shown.
pub const WIKIDATA_PROPERTY_DISPLAY_LIMIT: usize = 30;

/// Number of values that are shown for a property.
pub const WIKIDATA_VALUES_PER_PROPERTY_LIMIT: usize = 5;

/// Number of characters that the claims of a category take.
pub const WIKIDATA_CATEGORY_MESSAGE_BUDGET_CHARS: usize = 2600;

// Entities.

/// The value of a claim: what its JSON form holds under the names that are read.
#[derive(Debug, Default)]
pub struct WikidataValue {
    /// The value, where it is a text.
    pub plain: Option<String>,
    /// `id`.
    pub id: Option<String>,
    /// `numeric-id`.
    pub numeric_id: Option<u64>,
    /// `entity-type`.
    pub entity_type: Option<String>,
    /// `latitude`, written as a decimal number.
    pub latitude: Option<String>,
    /// `longitude`, written as a decimal number.
    pub longitude: Option<String>,
    /// `time`.
    pub time: Option<String>,
    /// `amount`.
    pub amount: Option<String>,
    /// `unit`.
    pub unit: Option<String>,
    /// `text`.
    pub text: Option<String>,
    /// `language`.
    pub language: Option<String>,
    /// The JSON form.
    pub json: String,
}

/// What a claim says of a property.
#[derive(Debug, Default)]
pub struct WikidataSnak {
    /// Type of the property.
    pub datatype: Option<String>,
    /// Kind of the snak.
    pub snaktype: Option<String>,
    /// The value.
    pub datavalue: Option<WikidataValue>,
}

/// An entity. Its labels, descriptions and claims stand in some order, each language and each
/// property once.
#[derive(Debug, Default)]
pub struct WikidataEntity {
    /// Properties and the claims about them.
    pub claims: Option<Vec<(String, Vec<WikidataSnak>)>>,
    /// Languages and labels.
    pub labels: Option<Vec<(String, String)>>,
    /// Languages and descriptions.
    pub descriptions: Option<Vec<(String, String)>>,
}

/// The label and the description of an entity.
#[derive(Debug, Default)]
pub struct WikidataLabelInfo {
    /// The label.
    pub label: Option<String>,
    /// The description.
    pub description: Option<String>,
}

/// The claims about a property as they are shown.
#[derive(Debug)]
pub struct WikidataPropertyClaims {
    /// Id of the property.
    pub property_id: String,
    /// Label of the property.
    pub property_label: String,
    /// Number of claims.
    pub total_values: usize,
    /// The first values in HTML.
    pub values: Vec<String>,
}

/// The value of `WikidataPropertyClaims`.
#[verifier::ext_equal]
pub struct PropertyView {
    pub property_id: Seq<char>,
    pub property_label: Seq<char>,
    pub total_values: nat,
    pub values: Seq<Seq<char>>,
}

impl View for WikidataPropertyClaims {
    type V = PropertyView;

    open spec fn view(&self) -> PropertyView {
        PropertyView {
            property_id: self.property_id@,
            property_label: self.property_label@,
            total_values: self.total_values as nat,
            values: text::texts(self.values@),
        }
    }
}

/// The values of the claims about properties.
pub open spec fn property_views(v: Seq<WikidataPropertyClaims>) -> Seq<PropertyView> {
    Seq::new(v.len(), |i: int| v[i]@)
}

/// The claims of an item as they are shown.
#[derive(Debug)]
pub struct WikidataClaims {
    /// Id of the item.
    pub item: String,
    /// Label of the item.
    pub label: Option<String>,
    /// Description of the item.
    pub description: Option<String>,
    /// Number of properties.
    pub property_count: usize,
    /// The properties.
    pub properties: Vec<WikidataPropertyClaims>,
}

/// The value of `WikidataClaims`.
#[verifier::ext_equal]
pub struct ClaimsView {
    pub item: Seq<char>,
    pub label: Option<Seq<char>>,
    pub description: Option<Seq<char>>,
    pub property_count: nat,
    pub properties: Seq<PropertyView>,
}

impl View for WikidataClaims {
    type V = ClaimsView;

    open spec fn view(&self) -> ClaimsView {
        ClaimsView {
            item: self.item@,
            label: text::opt_text(self.label),
            description: text::opt_text(self.description),
            property_count: self.property_count as nat,
            properties: property_views(self.properties@),
        }
    }
}

// Ids.

/// The id that a text names: `Q`, `P` or `L`, in any case, and digits.
pub open spec fn entity_id(s: Seq<char>) -> Option<Seq<char>> {
    let t = text::trimmed(s);
    if t.len() == 0 {
        None
    } else {
        let prefix = text::upper_char(t[0]);
        if (prefix == 'Q' || prefix == 'P' || prefix == 'L') && numbers::all_digits(t.skip(1)) {
            Some(seq![prefix] + t.skip(1))
        } else {
            None
        }
    }
}

/// Returns true when characters from a position on are digits, and there is one.
fn digits_behind(v: &Vec<char>, from: usize) -> (r: bool)
    requires
        from <= v.len(),
    ensures
        r == numbers::all_digits(v@.skip(from as int)),
{
    if from == v.len() {
        return false;
    }
    let mut i: usize = from;
    while i < v.len()
        invariant
            from <= i <= v.len(),
            forall|k: int| from <= k < i ==> text::is_digit(#[trigger] v@[k]),
        decreases v.len() - i,
    {
        if !(v[i] >= '0' && v[i] <= '9') {
            assert(v@.skip(from as int)[i - from] == v@[i as int]);
            return false;
        }
        i += 1;
    }
    assert forall|k: int| 0 <= k < v@.skip(from as int).len() implies text::is_digit(
        #[trigger] v@.skip(from as int)[k],
    ) by {
        assert(v@.skip(from as int)[k] == v@[from + k]);
    }
    true
}

/// Normalizes the id of a Wikidata entity.
pub fn normalize_wikidata_entity_id(value: &str) -> (r: Option<String>)
    ensures
        text::opt_text(r) == entity_id(value@),
{
    let v = text::chars_of(text::trim(value).as_str());
    if v.len() == 0 {
        return None;
    }
    let prefix: char = text::ascii_upper_char(v[0]);
    if prefix != 'Q' && prefix != 'P' && prefix != 'L' {
        return None;
    }
    if !digits_behind(&v, 1) {
        return None;
    }
    let mut id = String::new();
    id.push(prefix);
    let rest = text::substring(&v, 1, v.len());
    assert(rest@ =~= v@.skip(1));
    assert(id@ =~= seq![prefix]);
    Some(id.concat(rest.as_str()))
}

/// An id names itself.
pub proof fn law_entity_id_is_stable(s: Seq<char>)
    requires
        entity_id(s) is Some,
    ensures
        entity_id(entity_id(s)->0) == entity_id(s),
{
    let id = entity_id(s)->0;
    let rest = text::trimmed(s).skip(1);
    assert(id.skip(1) =~= rest);
    assert(text::is_digit(id.skip(1)[id.len() - 2]));
    assert(id[id.len() - 1] == id.skip(1)[id.len() - 2]);
    assert(!text::is_white(id[0]));
    assert(!text::is_white(id[id.len() - 1]));
    assert(text::drop_leading(id, text::white_class()) == id);
    assert(text::drop_trailing(id, text::white_class()) == id);
    assert(text::trimmed(id) == id);
}

/// The id at the end of an address.
pub open spec fn id_in_url(url: Seq<char>) -> Option<Seq<char>> {
    match text::cut_last(url, '/') {
        Some((_, last)) => entity_id(last),
        None => entity_id(url),
    }
}

/// Reads the id at the end of an address.
pub fn wikidata_entity_id_from_url(url: &str) -> (r: Option<String>)
    ensures
        text::opt_text(r) == id_in_url(url@),
{
    match text::rsplit_once(url, '/') {
        Some((_, last)) => normalize_wikidata_entity_id(last.as_str()),
        None => normalize_wikidata_entity_id(url),
    }
}

/// The id that an optional text names.
pub open spec fn opt_entity_id(s: Option<String>) -> Option<Seq<char>> {
    match s {
        Some(t) => entity_id(t@),
        None => None,
    }
}

/// The id of a number and a type of entity.
pub open spec fn numbered_id(numeric_id: Option<u64>, entity_type: Option<String>) -> Option<
    Seq<char>,
> {
    match (numeric_id, entity_type) {
        (Some(n), Some(t)) => if t@ == "item"@ {
            Some("Q"@ + numbers::numeral(n as nat))
        } else if t@ == "property"@ {
            Some("P"@ + numbers::numeral(n as nat))
        } else if t@ == "lexeme"@ {
            Some("L"@ + numbers::numeral(n as nat))
        } else {
            None
        },
        _ => None,
    }
}

/// The id of the entity that a value is.
pub open spec fn value_id(value: WikidataValue) -> Option<Seq<char>> {
    if opt_entity_id(value.id) is Some {
        opt_entity_id(value.id)
    } else {
        numbered_id(value.numeric_id, value.entity_type)
    }
}

/// Reads the id of the entity that a value is.
pub fn wikidata_entity_id_from_value(value: &WikidataValue) -> (r: Option<String>)
    ensures
        text::opt_text(r) == value_id(*value),
{
    if let Some(id) = &value.id {
        let normal = normalize_wikidata_entity_id(id.as_str());
        if normal.is_some() {
            return normal;
        }
    }
    match (value.numeric_id, &value.entity_type) {
        (Some(n), Some(t)) => {
            let number = numbers::decimal(n);
            if text::same(t.as_str(), "item") {
                Some("Q".to_owned().concat(number.as_str()))
            } else if text::same(t.as_str(), "property") {
                Some("P".to_owned().concat(number.as_str()))
            } else if text::same(t.as_str(), "lexeme") {
                Some("L".to_owned().concat(number.as_str()))
            } else {
                None
            }
        },
        _ => None,
    }
}

/// The id of the unit of a value.
pub open spec fn unit_id(value: WikidataValue) -> Option<Seq<char>> {
    match value.unit {
        Some(unit) => id_in_url(unit@),
        None => None,
    }
}

/// Reads the id of the unit of a value.
pub fn wikidata_quantity_unit_id(value: &WikidataValue) -> (r: Option<String>)
    ensures
        text::opt_text(r) == unit_id(*value),
{
    match &value.unit {
        Some(unit) => wikidata_entity_id_from_url(unit.as_str()),
        None => None,
    }
}

/// True of the characters of a language code.
pub open spec fn code_char(c: char) -> bool {
    'a' <= c <= 'z' || c == '-'
}

/// The language code that a text names; English where it names none.
pub open spec fn language_code(s: Seq<char>) -> Seq<char> {
    let t = text::lowered(text::trimmed(s));
    if t.len() > 0 && (forall|i: int| 0 <= i < t.len() ==> code_char(#[trigger] t[i])) {
        t
    } else {
        "en"@
    }
}

/// Normalizes a language code.
pub fn normalize_language_code(value: &str) -> (r: String)
    ensures
        r@ == language_code(value@),
{
    let lower = text::ascii_lowercase(text::trim(value).as_str());
    let v = text::chars_of(lower.as_str());
    if v.len() == 0 {
        return "en".to_owned();
    }
    let mut i: usize = 0;
    while i < v.len()
        invariant
            i <= v.len(),
            v@ == lower@,
            lower@ == text::lowered(text::trimmed(value@)),
            forall|k: int| 0 <= k < i ==> code_char(#[trigger] lower@[k]),
        decreases v.len() - i,
    {
        if !((v[i] >= 'a' && v[i] <= 'z') || v[i] == '-') {
            assert(!code_char(lower@[i as int]));
            return "en".to_owned();
        }
        i += 1;
    }
    lower
}

// Addresses.

/// The address of an entity.
pub open spec fn entity_url(id: Seq<char>) -> Seq<char> {
    if id.len() > 0 && id[0] == 'P' {
        "https://www.wikidata.org/wiki/Property:"@ + id
    } else {
        "https://www.wikidata.org/wiki/"@ + id
    }
}

/// Builds the address of an entity.
pub fn wikidata_entity_url(entity_id: &str) -> (r: String)
    ensures
        r@ == entity_url(entity_id@),
{
    if entity_id.unicode_len() > 0 && entity_id.get_char(0) == 'P' {
        "https://www.wikidata.org/wiki/Property:".to_owned().concat(entity_id)
    } else {
        "https://www.wikidata.org/wiki/".to_owned().concat(entity_id)
    }
}

/// The address of a file on Commons.
pub open spec fn file_url(file: Seq<char>) -> Seq<char> {
    let t = text::trimmed(file);
    let title = if text::begins(text::lowered(t), "file:"@) {
        t
    } else {
        "File:"@ + t
    };
    "https://commons.wikimedia.org/wiki/"@ + escaping::percent_encoded(
        text::expanded(title, text::substitution(' ', "_"@)),
    )
}

/// Builds the address of a file on Commons.
pub fn commons_file_url(file: &str) -> (r: String)
    ensures
        r@ == file_url(file@),
{
    let t = text::trim(file);
    let title = if text::starts_with(text::ascii_lowercase(t.as_str()).as_str(), "file:") {
        t
    } else {
        "File:".to_owned().concat(t.as_str())
    };
    "https://commons.wikimedia.org/wiki/".to_owned().concat(
        escaping::url_encode(text::replace_char(title.as_str(), ' ', "_").as_str()).as_str(),
    )
}

/// The address of a place on a map.
pub open spec fn map_url(lat: Seq<char>, lon: Seq<char>) -> Seq<char> {
    "https://www.openstreetmap.org/?mlat="@ + lat + "&mlon="@ + lon + "#map=15/"@ + lat + "/"@ + lon
}

/// Builds the address of a place on a map.
pub fn coordinate_url(lat: &str, lon: &str) -> (r: String)
    ensures
        r@ == map_url(lat@, lon@),
{
    "https://www.openstreetmap.org/?mlat=".to_owned().concat(lat).concat("&mlon=").concat(
        lon,
    ).concat("#map=15/").concat(lat).concat("/").concat(lon)
}

/// True of an absolute address.
pub open spec fn absolute(s: Seq<char>) -> bool {
    text::begins(s, "https://"@) || text::begins(s, "http://"@)
}

/// Returns true for an absolute address.
pub fn is_absolute_url(value: &str) -> (r: bool)
    ensures
        r == absolute(value@),
{
    text::starts_with(value, "https://") || text::starts_with(value, "http://")
}

/// The address that a pattern gives of an external id: the id, percent-encoded, stands in place
/// of each `$1`.
pub open spec fn external_url(formatter: Seq<char>, value: Seq<char>) -> Option<Seq<char>> {
    let f = text::trimmed(formatter);
    let v = text::trimmed(value);
    let url = text::substituted(f, "$1"@, escaping::percent_encoded(v));
    if f.len() > 0 && v.len() > 0 && text::holds(f, "$1"@) && absolute(url) {
        Some(url)
    } else {
        None
    }
}

/// Builds the address of an external id.
pub fn wikidata_external_id_url(formatter: &str, value: &str) -> (r: Option<String>)
    ensures
        text::opt_text(r) == external_url(formatter@, value@),
{
    let f = text::trim(formatter);
    let v = text::trim(value);
    if f.as_str().unicode_len() == 0 || v.as_str().unicode_len() == 0 || !text::contains(
        f.as_str(),
        "$1",
    ) {
        return None;
    }
    proof {
        reveal_strlit("$1");
    }
    let url = text::replace_text(f.as_str(), "$1", escaping::url_encode(v.as_str()).as_str());
    if is_absolute_url(url.as_str()) {
        Some(url)
    } else {
        None
    }
}

// Values.

/// The label of an entity.
pub open spec fn label_of(labels: Map<Seq<char>, WikidataLabelInfo>, id: Seq<char>) -> Option<
    Seq<char>,
> {
    if labels.dom().contains(id) {
        text::opt_text(labels[id].label)
    } else {
        None
    }
}

/// Returns the label of an entity.
pub fn wikidata_label_text(labels: &Cache<WikidataLabelInfo>, entity_id: &str) -> (r: Option<
    String,
>)
    requires
        labels.well_formed(),
    ensures
        text::opt_text(r) == label_of(labels@, entity_id@),
{
    match labels.get(entity_id) {
        Some(info) => text::clone_opt(&info.label),
        None => None,
    }
}

/// The description of an entity.
pub open spec fn description_of(labels: Map<Seq<char>, WikidataLabelInfo>, id: Seq<char>) -> Option<
    Seq<char>,
> {
    if labels.dom().contains(id) {
        text::opt_text(labels[id].description)
    } else {
        None
    }
}

/// Returns the description of an entity.
pub fn wikidata_description_text(labels: &Cache<WikidataLabelInfo>, entity_id: &str) -> (r: Option<
    String,
>)
    requires
        labels.well_formed(),
    ensures
        text::opt_text(r) == description_of(labels@, entity_id@),
{
    match labels.get(entity_id) {
        Some(info) => text::clone_opt(&info.description),
        None => None,
    }
}

/// A name with an id behind it, or the id alone where the name is the same.
pub open spec fn named(label: Seq<char>, id: Seq<char>) -> Seq<char> {
    if label == id {
        id
    } else {
        label + " ("@ + id + ")"@
    }
}

/// Writes a name with an id behind it.
fn write_named(label: &str, id: &str) -> (r: String)
    ensures
        r@ == named(label@, id@),
{
    if text::same(label, id) {
        id.to_owned()
    } else {
        label.to_owned().concat(" (").concat(id).concat(")")
    }
}

/// The link to an entity.
pub open spec fn entity_link(id: Seq<char>, labels: Map<Seq<char>, WikidataLabelInfo>) -> Seq<char> {
    telegram::link(
        entity_url(id),
        match label_of(labels, id) {
            Some(label) => named(label, id),
            None => id,
        },
    )
}

/// Builds the link to an entity.
pub fn wikidata_entity_link(entity_id: &str, labels: &Cache<WikidataLabelInfo>) -> (r: String)
    requires
        labels.well_formed(),
    ensures
        r@ == entity_link(entity_id@, labels@),
{
    let shown = match wikidata_label_text(labels, entity_id) {
        Some(label) => write_named(label.as_str(), entity_id),
        None => entity_id.to_owned(),
    };
    html_link(wikidata_entity_url(entity_id).as_str(), shown.as_str())
}

/// A place as it is shown.
pub open spec fn coordinate_text(value: WikidataValue) -> Option<Seq<char>> {
    match (value.latitude, value.longitude) {
        (Some(lat), Some(lon)) => Some(
            telegram::link(map_url(lat@, lon@), lat@ + ", "@ + lon@),
        ),
        _ => None,
    }
}

/// Shows a place.
pub fn wikidata_coordinate_value(value: &WikidataValue) -> (r: Option<String>)
    ensures
        text::opt_text(r) == coordinate_text(*value),
{
    match (&value.latitude, &value.longitude) {
        (Some(lat), Some(lon)) => Some(
            html_link(
                coordinate_url(lat.as_str(), lon.as_str()).as_str(),
                lat.clone().concat(", ").concat(lon.as_str()).as_str(),
            ),
        ),
        _ => None,
    }
}

/// A date without the parts at its end that are not known.
pub open spec fn known_parts(s: Seq<char>) -> Seq<char>
    decreases s.len(),
{
    if s.len() >= 3 && text::finishes(s, "-00"@) {
        known_parts(s.take(s.len() - 3))
    } else {
        s
    }
}

/// Drops the parts at the end of a date that are not known.
fn drop_unknown_parts(s: String) -> (r: String)
    ensures
        r@ == known_parts(s@),
{
    proof {
        reveal_strlit("-00");
    }
    let mut rest = s;
    loop
        invariant
            "-00"@.len() == 3,
            known_parts(s@) == known_parts(rest@),
        decreases rest@.len(),
    {
        match text::strip_suffix(rest.as_str(), "-00") {
            Some(shorter) => {
                assert(shorter@ =~= rest@.take(rest@.len() - 3));
                rest = shorter;
            },
            None => return rest,
        }
    }
}

/// A point in time as it is shown: the date, as far as it is known.
pub open spec fn time_text(value: WikidataValue) -> Option<Seq<char>> {
    match value.time {
        Some(raw) => {
            let unsigned = text::drop_leading(raw@, text::just('+'));
            let date = match text::cut_first(unsigned, 'T') {
                Some((date, _)) => date,
                None => unsigned,
            };
            if known_parts(date).len() > 0 {
                Some(escaping::html_text(known_parts(date)))
            } else {
                None
            }
        },
        None => None,
    }
}

/// Shows a point in time.
pub fn wikidata_time_value(value: &WikidataValue) -> (r: Option<String>)
    ensures
        text::opt_text(r) == time_text(*value),
{
    match &value.time {
        Some(raw) => {
            let unsigned = text::trim_start_char(raw.as_str(), '+');
            let date = match text::split_once(unsigned.as_str(), 'T') {
                Some((date, _)) => date,
                None => unsigned,
            };
            let known = drop_unknown_parts(date);
            if known.as_str().unicode_len() > 0 {
                Some(escape_text(known.as_str()))
            } else {
                None
            }
        },
        None => None,
    }
}

/// A quantity as it is shown, with its unit.
pub open spec fn quantity_text(
    value: WikidataValue,
    labels: Map<Seq<char>, WikidataLabelInfo>,
) -> Option<Seq<char>> {
    match value.amount {
        Some(raw) => {
            let amount = escaping::html_text(text::drop_leading(raw@, text::just('+')));
            match value.unit {
                Some(unit) => if unit@ == "1"@ {
                    Some(amount)
                } else {
                    Some(
                        amount + " "@ + (match id_in_url(unit@) {
                            Some(id) => entity_link(id, labels),
                            None => telegram::link(unit@, unit@),
                        }),
                    )
                },
                None => Some(amount),
            }
        },
        None => None,
    }
}

/// Shows a quantity.
pub fn wikidata_quantity_value(value: &WikidataValue, labels: &Cache<WikidataLabelInfo>) -> (r:
    Option<String>)
    requires
        labels.well_formed(),
    ensures
        text::opt_text(r) == quantity_text(*value, labels@),
{
    match &value.amount {
        Some(raw) => {
            let amount = escape_text(text::trim_start_char(raw.as_str(), '+').as_str());
            match &value.unit {
                Some(unit) => if text::same(unit.as_str(), "1") {
                    Some(amount)
                } else {
                    let shown = match wikidata_entity_id_from_url(unit.as_str()) {
                        Some(id) => wikidata_entity_link(id.as_str(), labels),
                        None => html_link(unit.as_str(), unit.as_str()),
                    };
                    Some(amount.concat(" ").concat(shown.as_str()))
                },
                None => Some(amount),
            }
        },
        None => None,
    }
}

/// A text of one language as it is shown.
pub open spec fn monolingual_text(value: WikidataValue) -> Option<Seq<char>> {
    match value.text {
        Some(t) => match value.language {
            Some(l) => Some(
                escaping::html_text(t@) + " ("@ + escaping::html_text(l@) + ")"@,
            ),
            None => Some(escaping::html_text(t@)),
        },
        None => None,
    }
}

/// Shows a text of one language.
pub fn wikidata_monolingual_text_value(value: &WikidataValue) -> (r: Option<String>)
    ensures
        text::opt_text(r) == monolingual_text(*value),
{
    match &value.text {
        Some(t) => match &value.language {
            Some(l) => Some(
                escape_text(t.as_str()).concat(" (").concat(
                    escape_text(l.as_str()).as_str(),
                ).concat(")"),
            ),
            None => Some(escape_text(t.as_str())),
        },
        None => None,
    }
}

/// A text value as it is shown: an external id or a file as a link, an address as a link to
/// itself, any other text as it is.
pub open spec fn plain_text(
    property_id: Seq<char>,
    datatype: Option<Seq<char>>,
    value: Seq<char>,
    formatters: Map<Seq<char>, String>,
) -> Seq<char> {
    if datatype == Some("external-id"@) && formatters.dom().contains(property_id) && external_url(
        formatters[property_id]@,
        value,
    ) is Some {
        telegram::link(external_url(formatters[property_id]@, value)->0, value)
    } else if datatype == Some("commonsMedia"@) {
        telegram::link(file_url(value), value)
    } else if absolute(value) {
        telegram::link(value, value)
    } else {
        escaping::html_text(value)
    }
}

/// Shows a text value.
fn render_plain_value(
    property_id: &str,
    datatype: &Option<String>,
    value: &str,
    formatters: &Cache<String>,
) -> (r: String)
    requires
        formatters.well_formed(),
    ensures
        r@ == plain_text(property_id@, text::opt_text(*datatype), value@, formatters@),
{
    let external = match datatype {
        Some(t) => text::same(t.as_str(), "external-id"),
        None => false,
    };
    let media = match datatype {
        Some(t) => text::same(t.as_str(), "commonsMedia"),
        None => false,
    };
    if external {
        if let Some(formatter) = formatters.get(property_id) {
            if let Some(url) = wikidata_external_id_url(formatter.as_str(), value) {
                return html_link(url.as_str(), value);
            }
        }
    }
    if media {
        return html_link(commons_file_url(value).as_str(), value);
    }
    if is_absolute_url(value) {
        html_link(value, value)
    } else {
        escape_text(value)
    }
}

/// What a snak without a value says.
pub open spec fn absent_text(snaktype: Option<Seq<char>>) -> Option<Seq<char>> {
    if snaktype == Some("somevalue"@) {
        Some(escaping::html_text("some value"@))
    } else if snaktype == Some("novalue"@) {
        Some(escaping::html_text("no value"@))
    } else {
        None
    }
}

/// A value with parts as it is shown: a place, a time, a quantity or a text, the first that it
/// is; any other in its JSON form.
pub open spec fn compound_text(
    value: WikidataValue,
    labels: Map<Seq<char>, WikidataLabelInfo>,
) -> Seq<char> {
    if coordinate_text(value) is Some {
        coordinate_text(value)->0
    } else if time_text(value) is Some {
        time_text(value)->0
    } else if quantity_text(value, labels) is Some {
        quantity_text(value, labels)->0
    } else if monolingual_text(value) is Some {
        monolingual_text(value)->0
    } else {
        escaping::html_text(text::shortened(value.json@, 240))
    }
}

/// Shows a value with parts.
fn render_compound_value(value: &WikidataValue, labels: &Cache<WikidataLabelInfo>) -> (r: String)
    requires
        labels.well_formed(),
    ensures
        r@ == compound_text(*value, labels@),
{
    if let Some(shown) = wikidata_coordinate_value(value) {
        return shown;
    }
    if let Some(shown) = wikidata_time_value(value) {
        return shown;
    }
    if let Some(shown) = wikidata_quantity_value(value, labels) {
        return shown;
    }
    if let Some(shown) = wikidata_monolingual_text_value(value) {
        return shown;
    }
    escape_text(text::shorten(value.json.as_str(), 240).as_str())
}

/// What a snak says, as it is shown.
pub open spec fn snak_text(
    property_id: Seq<char>,
    snak: WikidataSnak,
    labels: Map<Seq<char>, WikidataLabelInfo>,
    formatters: Map<Seq<char>, String>,
) -> Option<Seq<char>> {
    match snak.datavalue {
        Some(value) => if value_id(value) is Some {
            Some(entity_link(value_id(value)->0, labels))
        } else if value.plain is Some {
            Some(
                plain_text(
                    property_id,
                    text::opt_text(snak.datatype),
                    (value.plain->0)@,
                    formatters,
                ),
            )
        } else {
            Some(compound_text(value, labels))
        },
        None => absent_text(text::opt_text(snak.snaktype)),
    }
}

/// Shows what a snak says.
pub fn render_wikidata_snak_value(
    property_id: &str,
    snak: &WikidataSnak,
    labels: &Cache<WikidataLabelInfo>,
    property_formatters: &Cache<String>,
) -> (r: Option<String>)
    requires
        labels.well_formed(),
        property_formatters.well_formed(),
    ensures
        text::opt_text(r) == snak_text(property_id@, *snak, labels@, property_formatters@),
{
    match &snak.datavalue {
        Some(value) => {
            if let Some(id) = wikidata_entity_id_from_value(value) {
                return Some(wikidata_entity_link(id.as_str(), labels));
            }
            match &value.plain {
                Some(s) => Some(
                    render_plain_value(property_id, &snak.datatype, s.as_str(), property_formatters),
                ),
                None => Some(render_compound_value(value, labels)),
            }
        },
        None => match &snak.snaktype {
            Some(t) => if text::same(t.as_str(), "somevalue") {
                Some(escape_text("some value"))
            } else if text::same(t.as_str(), "novalue") {
                Some(escape_text("no value"))
            } else {
                None
            },
            None => None,
        },
    }
}

// What is asked for.

/// A list of one text or none.
pub open spec fn opt_list(s: Option<Seq<char>>) -> Seq<Seq<char>> {
    match s {
        Some(t) => seq![t],
        None => seq![],
    }
}

/// The entities that a snak names: its value, and the unit of its value.
pub open spec fn snak_ids(snak: WikidataSnak) -> Seq<Seq<char>> {
    match snak.datavalue {
        Some(value) => opt_list(value_id(value)) + opt_list(unit_id(value)),
        None => seq![],
    }
}

/// The entities that snaks name.
pub open spec fn snaks_ids(snaks: Seq<WikidataSnak>) -> Seq<Seq<char>>
    decreases snaks.len(),
{
    if snaks.len() == 0 {
        seq![]
    } else {
        snaks_ids(snaks.drop_last()) + snak_ids(snaks.last())
    }
}

/// The properties of claims, and the entities that the claims name.
pub open spec fn claims_ids(claims: Seq<(String, Vec<WikidataSnak>)>) -> Seq<Seq<char>>
    decreases claims.len(),
{
    if claims.len() == 0 {
        seq![]
    } else {
        claims_ids(claims.drop_last()).push(claims.last().0@) + snaks_ids(claims.last().1@)
    }
}

/// Adds a text, where there is one.
fn push_opt(list: &mut Vec<String>, s: Option<String>)
    ensures
        text::texts(final(list)@) == text::texts(old(list)@) + opt_list(text::opt_text(s)),
{
    let ghost was = list@;
    if let Some(t) = s {
        proof {
            text::lemma_texts_push(was, t);
        }
        list.push(t);
    }
    assert(text::texts(list@) =~= text::texts(was) + opt_list(text::opt_text(s)));
}

/// Adds the entities that snaks name.
fn push_snak_ids(list: &mut Vec<String>, snaks: &Vec<WikidataSnak>)
    ensures
        text::texts(final(list)@) == text::texts(old(list)@) + snaks_ids(snaks@),
{
    let ghost was = text::texts(list@);
    let mut i: usize = 0;
    assert(snaks@.take(0) =~= seq![]);
    assert(was + seq![] =~= was);
    while i < snaks.len()
        invariant
            i <= snaks.len(),
            text::texts(list@) == was + snaks_ids(snaks@.take(i as int)),
        decreases snaks.len() - i,
    {
        let ghost before = snaks_ids(snaks@.take(i as int));
        proof {
            assert(snaks@.take(i + 1).drop_last() =~= snaks@.take(i as int));
            assert(snaks@.take(i + 1).last() == snaks@[i as int]);
        }
        if let Some(value) = &snaks[i].datavalue {
            push_opt(list, wikidata_entity_id_from_value(value));
            push_opt(list, wikidata_quantity_unit_id(value));
        }
        assert(text::texts(list@) =~= was + (before + snak_ids(snaks@[i as int])));
        i += 1;
    }
    assert(snaks@.take(snaks.len() as int) =~= snaks@);
}

/// Lists the entities whose labels an item's claims need: the item, the properties, and what the
/// claims name.
pub fn label_ids(item: &str, claims: &Vec<(String, Vec<WikidataSnak>)>) -> (r: Vec<String>)
    ensures
        text::texts(r@) == seq![item@] + claims_ids(claims@),
{
    let mut list: Vec<String> = Vec::new();
    list.push(item.to_owned());
    assert(text::texts(list@) =~= seq![item@]);
    let mut i: usize = 0;
    assert(claims@.take(0) =~= seq![]);
    assert(seq![item@] + seq![] =~= seq![item@]);
    while i < claims.len()
        invariant
            i <= claims.len(),
            text::texts(list@) == seq![item@] + claims_ids(claims@.take(i as int)),
        decreases claims.len() - i,
    {
        let ghost before = claims_ids(claims@.take(i as int));
        proof {
            assert(claims@.take(i + 1).drop_last() =~= claims@.take(i as int));
            assert(claims@.take(i + 1).last() == claims@[i as int]);
        }
        push_opt(&mut list, Some(claims[i].0.clone()));
        push_snak_ids(&mut list, &claims[i].1);
        assert(text::texts(list@) =~= seq![item@] + (before.push(claims@[i as int].0@) + snaks_ids(
            claims@[i as int].1@,
        )));
        i += 1;
    }
    assert(claims@.take(claims.len() as int) =~= claims@);
    list
}

/// True of a snak that holds an external id.
pub open spec fn external_snak(snak: WikidataSnak) -> bool {
    &&& text::opt_text(snak.datatype) == Some("external-id"@)
    &&& snak.datavalue is Some
    &&& (snak.datavalue->0).plain is Some
}

/// The properties of claims that hold an external id.
pub open spec fn external_properties(claims: Seq<(String, Vec<WikidataSnak>)>) -> Seq<Seq<char>>
    decreases claims.len(),
{
    if claims.len() == 0 {
        seq![]
    } else {
        let before = external_properties(claims.drop_last());
        if exists|i: int|
            0 <= i < claims.last().1@.len() && external_snak(#[trigger] claims.last().1@[i]) {
            before.push(claims.last().0@)
        } else {
            before
        }
    }
}

/// Returns true when a snak holds an external id.
fn is_external_snak(snak: &WikidataSnak) -> (r: bool)
    ensures
        r == external_snak(*snak),
{
    let external = match &snak.datatype {
        Some(t) => text::same(t.as_str(), "external-id"),
        None => false,
    };
    let plain = match &snak.datavalue {
        Some(value) => value.plain.is_some(),
        None => false,
    };
    external && plain
}

/// Returns true when one of some snaks holds an external id.
fn any_external(snaks: &Vec<WikidataSnak>) -> (r: bool)
    ensures
        r == (exists|i: int| 0 <= i < snaks@.len() && external_snak(#[trigger] snaks@[i])),
{
    let mut i: usize = 0;
    while i < snaks.len()
        invariant
            i <= snaks.len(),
            forall|k: int| 0 <= k < i ==> !external_snak(#[trigger] snaks@[k]),
        decreases snaks.len() - i,
    {
        if is_external_snak(&snaks[i]) {
            return true;
        }
        i += 1;
    }
    false
}

/// Lists the properties of claims that hold an external id.
pub fn external_id_property_ids(claims: &Vec<(String, Vec<WikidataSnak>)>) -> (r: Vec<String>)
    ensures
        text::texts(r@) == external_properties(claims@),
{
    let mut list: Vec<String> = Vec::new();
    assert(text::texts(list@) =~= seq![]);
    let mut i: usize = 0;
    assert(claims@.take(0) =~= seq![]);
    while i < claims.len()
        invariant
            i <= claims.len(),
            text::texts(list@) == external_properties(claims@.take(i as int)),
        decreases claims.len() - i,
    {
        proof {
            assert(claims@.take(i + 1).drop_last() =~= claims@.take(i as int));
            assert(claims@.take(i + 1).last() == claims@[i as int]);
        }
        if any_external(&claims[i].1) {
            proof {
                text::lemma_texts_push(list@, claims@[i as int].0);
            }
            list.push(claims[i].0.clone());
        }
        i += 1;
    }
    assert(claims@.take(claims.len() as int) =~= claims@);
    list
}

/// True where each text comes before those behind it.
pub open spec fn ascending(list: Seq<Seq<char>>) -> bool {
    forall|i: int, j: int|
        0 <= i < j < list.len() ==> text::precedes(#[trigger] list[i], #[trigger] list[j])
}

/// True of an id that one of some texts names; of a property where only properties count.
pub open spec fn named_by(ids: Seq<Seq<char>>, properties_only: bool, id: Seq<char>) -> bool {
    &&& exists|i: int| 0 <= i < ids.len() && entity_id(#[trigger] ids[i]) == Some(id)
    &&& properties_only ==> id.len() > 0 && id[0] == 'P'
}

/// Puts a text into an ascending list, unless it is there.
fn put_in_order(list: &mut Vec<String>, s: String)
    requires
        ascending(text::texts(old(list)@)),
    ensures
        ascending(text::texts(final(list)@)),
        forall|x: Seq<char>| #[trigger]
            text::texts(final(list)@).contains(x) <==> (x == s@ || text::texts(
                old(list)@,
            ).contains(x)),
{
    let ghost was = text::texts(list@);
    let mut i: usize = 0;
    while i < list.len() && text::comes_before(list[i].as_str(), s.as_str())
        invariant
            i <= list.len(),
            was == text::texts(list@),
            forall|k: int| 0 <= k < i ==> text::precedes(#[trigger] was[k], s@),
        decreases list.len() - i,
    {
        i += 1;
    }
    if i < list.len() {
        assert(was[i as int] == list@[i as int]@);
        if text::same(list[i].as_str(), s.as_str()) {
            assert(was.contains(s@));
            return;
        }
        proof {
            text::lemma_precedes_total(was[i as int], s@);
        }
    }
    list.insert(i, s);
    proof {
        let now = text::texts(list@);
        assert(now =~= was.insert(i as int, s@));
        assert forall|a: int, b: int| 0 <= a < b < now.len() implies text::precedes(
            #[trigger] now[a],
            #[trigger] now[b],
        ) by {
            let x = if a < i {
                a
            } else {
                a - 1
            };
            let y = if b < i {
                b
            } else {
                b - 1
            };
            if a != i {
                assert(now[a] == was[x]);
            }
            if b != i {
                assert(now[b] == was[y]);
            }
            if a == i {
                assert(text::precedes(s@, was[i as int]));
                if y > i {
                    assert(text::precedes(was[i as int], was[y]));
                    text::lemma_precedes_transitive(s@, was[i as int], was[y]);
                }
            }
        }
        assert forall|x: Seq<char>| #[trigger] now.contains(x) implies x == s@ || was.contains(
            x,
        ) by {
            let a = choose|a: int| 0 <= a < now.len() && now[a] == x;
            if a < i {
                assert(was[a] == x);
            } else if a > i {
                assert(was[a - 1] == x);
            }
        }
        assert forall|x: Seq<char>| x == s@ || was.contains(x) implies #[trigger] now.contains(
            x,
        ) by {
            if x == s@ {
                assert(now[i as int] == x);
            } else {
                let a = choose|a: int| 0 <= a < was.len() && was[a] == x;
                assert(now[if a < i {
                    a
                } else {
                    a + 1
                }] == x);
            }
        }
    }
}

/// Lists the ids that some texts name, each once and in order.
pub fn unique_entity_ids(ids: &Vec<String>, properties_only: bool) -> (r: Vec<String>)
    ensures
        ascending(text::texts(r@)),
        forall|id: Seq<char>| #[trigger]
            text::texts(r@).contains(id) <==> named_by(text::texts(ids@), properties_only, id),
{
    let mut list: Vec<String> = Vec::new();
    let ghost all = text::texts(ids@);
    let mut i: usize = 0;
    while i < ids.len()
        invariant
            i <= ids.len(),
            all == text::texts(ids@),
            ascending(text::texts(list@)),
            forall|id: Seq<char>| #[trigger]
                text::texts(list@).contains(id) <==> named_by(
                    all.take(i as int),
                    properties_only,
                    id,
                ),
        decreases ids.len() - i,
    {
        let ghost was = text::texts(list@);
        let normal = normalize_wikidata_entity_id(ids[i].as_str());
        let ghost found = entity_id(all[i as int]);
        assert(text::opt_text(normal) == found);
        if let Some(id) = normal {
            if !properties_only || id.as_str().get_char(0) == 'P' {
                put_in_order(&mut list, id);
            }
        }
        proof {
            let now = text::texts(list@);
            assert forall|id: Seq<char>| #[trigger] now.contains(id) <==> named_by(
                all.take(i + 1),
                properties_only,
                id,
            ) by {
                if was.contains(id) {
                    let k = choose|k: int|
                        0 <= k < all.take(i as int).len() && entity_id(
                            #[trigger] all.take(i as int)[k],
                        ) == Some(id);
                    assert(entity_id(all.take(i + 1)[k]) == Some(id));
                }
                if found == Some(id) {
                    assert(entity_id(all.take(i + 1)[i as int]) == Some(id));
                }
                if named_by(all.take(i + 1), properties_only, id) {
                    let k = choose|k: int|
                        0 <= k < all.take(i + 1).len() && entity_id(#[trigger] all.take(i + 1)[k])
                            == Some(id);
                    if k < i {
                        assert(entity_id(all.take(i as int)[k]) == Some(id));
                        assert(named_by(all.take(i as int), properties_only, id));
                        assert(was.contains(id));
                    }
                }
            }
        }
        i += 1;
    }
    assert(all.take(ids.len() as int) =~= all);
    list
}

/// The ids of a list in batches, each as it is asked for.
pub open spec fn batches(ids: Seq<Seq<char>>) -> Seq<Seq<char>>
    decreases ids.len(),
{
    if ids.len() == 0 {
        seq![]
    } else if ids.len() <= WIKIDATA_ENTITY_BATCH_SIZE {
        seq![text::joined(ids, "|"@)]
    } else {
        seq![text::joined(ids.take(WIKIDATA_ENTITY_BATCH_SIZE as int), "|"@)] + batches(
            ids.skip(WIKIDATA_ENTITY_BATCH_SIZE as int),
        )
    }
}

/// Copies the texts of a list between two positions.
fn slice_texts(list: &Vec<String>, from: usize, to: usize) -> (r: Vec<String>)
    requires
        from <= to <= list.len(),
    ensures
        text::texts(r@) == text::texts(list@).subrange(from as int, to as int),
{
    let mut out: Vec<String> = Vec::new();
    let mut i: usize = from;
    while i < to
        invariant
            from <= i <= to <= list.len(),
            out@ == list@.subrange(from as int, i as int),
        decreases to - i,
    {
        out.push(list[i].clone());
        assert(out@ =~= list@.subrange(from as int, i + 1));
        i += 1;
    }
    assert(text::texts(out@) =~= text::texts(list@).subrange(from as int, to as int));
    out
}

/// Splits ids into batches, each as it is asked for.
pub fn id_batches(ids: &Vec<String>) -> (r: Vec<String>)
    ensures
        text::texts(r@) == batches(text::texts(ids@)),
{
    let ghost all = text::texts(ids@);
    let mut out: Vec<String> = Vec::new();
    let mut i: usize = 0;
    assert(all.skip(0) =~= all);
    assert(text::texts(out@) =~= seq![]);
    assert(seq![] + batches(all) =~= batches(all));
    while i < ids.len()
        invariant
            i <= ids.len(),
            all == text::texts(ids@),
            batches(all) == text::texts(out@) + batches(all.skip(i as int)),
        decreases ids.len() - i,
    {
        let to: usize = if ids.len() - i <= WIKIDATA_ENTITY_BATCH_SIZE {
            ids.len()
        } else {
            i + WIKIDATA_ENTITY_BATCH_SIZE
        };
        let batch = text::join(&slice_texts(ids, i, to), "|");
        let ghost before = text::texts(out@);
        proof {
            let rest = all.skip(i as int);
            if to == ids.len() {
                assert(all.subrange(i as int, to as int) =~= rest);
                assert(all.skip(to as int) =~= seq![]);
            } else {
                assert(all.subrange(i as int, to as int) =~= rest.take(
                    WIKIDATA_ENTITY_BATCH_SIZE as int,
                ));
                assert(all.skip(to as int) =~= rest.skip(WIKIDATA_ENTITY_BATCH_SIZE as int));
            }
            text::lemma_texts_push(out@, batch);
            assert(before + (seq![batch@] + batches(all.skip(to as int))) =~= before.push(batch@)
                + batches(all.skip(to as int)));
        }
        out.push(batch);
        i = to;
    }
    assert(all.skip(ids.len() as int) =~= seq![]);
    assert(text::texts(out@) + seq![] =~= text::texts(out@));
    out
}

/// Builds the request for entities: what is asked of them, and in which language.
pub fn entities_request(ids: &str, props: &str, language: Option<&str>) -> (r: Vec<
    (String, String),
>)
    ensures
        commons::pairs(r@) == seq![
            ("action"@, "wbgetentities"@),
            ("format"@, "json"@),
            ("ids"@, ids@),
            ("props"@, props@),
        ] + (match language {
            Some(l) => seq![("languages"@, l@ + "|en"@), ("languagefallback"@, "1"@)],
            None => seq![],
        }),
{
    let mut list: Vec<(String, String)> = Vec::new();
    assert(commons::pairs(list@) =~= seq![]);
    push_pair(&mut list, "action", "wbgetentities");
    push_pair(&mut list, "format", "json");
    push_pair(&mut list, "ids", ids);
    push_pair(&mut list, "props", props);
    if let Some(l) = language {
        push_pair(&mut list, "languages", l.to_owned().concat("|en").as_str());
        push_pair(&mut list, "languagefallback", "1");
    }
    assert(commons::pairs(list@) =~= seq![
        ("action"@, "wbgetentities"@),
        ("format"@, "json"@),
        ("ids"@, ids@),
        ("props"@, props@),
    ] + (match language {
        Some(l) => seq![("languages"@, l@ + "|en"@), ("languagefallback"@, "1"@)],
        None => seq![],
    }));
    list
}

/// The language, the item and the key under which rendered claims are kept.
#[derive(Debug)]
pub struct ClaimsRequest {
    /// Language code.
    pub language: String,
    /// Id of the item.
    pub item: String,
    /// The key.
    pub key: String,
}

/// Reads the item and the language of a request for claims; nothing where the item is not an id.
pub fn claims_request(item: &str, language: &str) -> (r: Option<ClaimsRequest>)
    ensures
        match (r, entity_id(item@)) {
            (Some(q), Some(id)) => {
                &&& q.language@ == language_code(language@)
                &&& q.item@ == id
                &&& q.key@ == language_code(language@) + ":"@ + id
            },
            (None, None) => true,
            _ => false,
        },
{
    match normalize_wikidata_entity_id(item) {
        Some(id) => {
            let language = normalize_language_code(language);
            let key = language.clone().concat(":").concat(id.as_str());
            Some(ClaimsRequest { language, item: id, key })
        },
        None => None,
    }
}

// What comes back.

/// The text of a language, the first where there are more.
pub open spec fn in_language(values: Seq<(String, String)>, language: Seq<char>) -> Option<Seq<char>>
    decreases values.len(),
{
    if values.len() == 0 {
        None
    } else if values[0].0@ == language {
        Some(values[0].1@)
    } else {
        in_language(values.skip(1), language)
    }
}

/// The text in a language, in English, or else the first.
pub open spec fn localized(values: Option<Vec<(String, String)>>, language: Seq<char>) -> Option<
    Seq<char>,
> {
    match values {
        Some(v) => if in_language(v@, language) is Some {
            in_language(v@, language)
        } else if in_language(v@, "en"@) is Some {
            in_language(v@, "en"@)
        } else if v@.len() > 0 {
            Some(v@[0].1@)
        } else {
            None
        },
        None => None,
    }
}

/// Finds the text of a language.
fn find_language(values: &Vec<(String, String)>, language: &str) -> (r: Option<String>)
    ensures
        text::opt_text(r) == in_language(values@, language@),
{
    let mut i: usize = 0;
    assert(values@.skip(0) =~= values@);
    while i < values.len()
        invariant
            i <= values.len(),
            in_language(values@, language@) == in_language(values@.skip(i as int), language@),
        decreases values.len() - i,
    {
        proof {
            assert(values@.skip(i as int)[0] == values@[i as int]);
            assert(values@.skip(i as int).skip(1) =~= values@.skip(i + 1));
        }
        if text::same(values[i].0.as_str(), language) {
            return Some(values[i].1.clone());
        }
        i += 1;
    }
    None
}

/// Chooses the text in a language, in English, or else the first.
pub fn wikidata_localized_entity_value(values: &Option<Vec<(String, String)>>, language: &str) -> (r:
    Option<String>)
    ensures
        text::opt_text(r) == localized(*values, language@),
{
    match values {
        Some(v) => {
            if let Some(t) = find_language(v, language) {
                return Some(t);
            }
            if let Some(t) = find_language(v, "en") {
                return Some(t);
            }
            if v.len() > 0 {
                Some(v[0].1.clone())
            } else {
                None
            }
        },
        None => None,
    }
}

/// Reads the label and the description of an entity.
pub fn label_info(entity: &WikidataEntity, language: &str) -> (r: WikidataLabelInfo)
    ensures
        text::opt_text(r.label) == localized(entity.labels, language@),
        text::opt_text(r.description) == localized(entity.descriptions, language@),
{
    WikidataLabelInfo {
        label: wikidata_localized_entity_value(&entity.labels, language),
        description: wikidata_localized_entity_value(&entity.descriptions, language),
    }
}

/// The pattern that a snak holds, where it is one for addresses.
pub open spec fn pattern_of(snak: WikidataSnak) -> Option<Seq<char>> {
    match snak.datavalue {
        Some(value) => match value.plain {
            Some(s) => if absolute(s@) && text::holds(s@, "$1"@) {
                Some(s@)
            } else {
                None
            },
            None => None,
        },
        None => None,
    }
}

/// The first pattern for addresses of some snaks.
pub open spec fn first_pattern(snaks: Seq<WikidataSnak>) -> Option<Seq<char>>
    decreases snaks.len(),
{
    if snaks.len() == 0 {
        None
    } else if pattern_of(snaks[0]) is Some {
        pattern_of(snaks[0])
    } else {
        first_pattern(snaks.skip(1))
    }
}

/// The claims about a property, the first where there are more.
pub open spec fn claims_about(claims: Seq<(String, Vec<WikidataSnak>)>, property_id: Seq<char>) -> Option<
    Seq<WikidataSnak>,
>
    decreases claims.len(),
{
    if claims.len() == 0 {
        None
    } else if claims[0].0@ == property_id {
        Some(claims[0].1@)
    } else {
        claims_about(claims.skip(1), property_id)
    }
}

/// The pattern for the addresses of a property's external ids.
pub open spec fn formatter_of(entity: WikidataEntity) -> Option<Seq<char>> {
    match entity.claims {
        Some(claims) => match claims_about(claims@, "P1630"@) {
            Some(snaks) => first_pattern(snaks),
            None => None,
        },
        None => None,
    }
}

/// Finds the first pattern for addresses of some snaks.
fn find_pattern(snaks: &Vec<WikidataSnak>) -> (r: Option<String>)
    ensures
        text::opt_text(r) == first_pattern(snaks@),
{
    let mut i: usize = 0;
    assert(snaks@.skip(0) =~= snaks@);
    while i < snaks.len()
        invariant
            i <= snaks.len(),
            first_pattern(snaks@) == first_pattern(snaks@.skip(i as int)),
        decreases snaks.len() - i,
    {
        proof {
            assert(snaks@.skip(i as int)[0] == snaks@[i as int]);
            assert(snaks@.skip(i as int).skip(1) =~= snaks@.skip(i + 1));
        }
        if let Some(value) = &snaks[i].datavalue {
            if let Some(s) = &value.plain {
                if is_absolute_url(s.as_str()) && text::contains(s.as_str(), "$1") {
                    return Some(s.clone());
                }
            }
        }
        i += 1;
    }
    None
}

/// Reads the pattern for the addresses of a property's external ids.
pub fn wikidata_formatter_url_from_entity(entity: &WikidataEntity) -> (r: Option<String>)
    ensures
        text::opt_text(r) == formatter_of(*entity),
{
    let claims = match &entity.claims {
        Some(claims) => claims,
        None => return None,
    };
    let mut i: usize = 0;
    assert(claims@.skip(0) =~= claims@);
    while i < claims.len()
        invariant
            i <= claims.len(),
            entity.claims == Some(*claims),
            claims_about(claims@, "P1630"@) == claims_about(claims@.skip(i as int), "P1630"@),
        decreases claims.len() - i,
    {
        proof {
            assert(claims@.skip(i as int)[0] == claims@[i as int]);
            assert(claims@.skip(i as int).skip(1) =~= claims@.skip(i + 1));
        }
        if text::same(claims[i].0.as_str(), "P1630") {
            return find_pattern(&claims[i].1);
        }
        i += 1;
    }
    None
}

/// The values of snaks that are shown, in order.
pub open spec fn shown_values(
    property_id: Seq<char>,
    snaks: Seq<WikidataSnak>,
    labels: Map<Seq<char>, WikidataLabelInfo>,
    formatters: Map<Seq<char>, String>,
) -> Seq<Seq<char>>
    decreases snaks.len(),
{
    if snaks.len() == 0 {
        seq![]
    } else {
        let before = shown_values(property_id, snaks.drop_last(), labels, formatters);
        match snak_text(property_id, snaks.last(), labels, formatters) {
            Some(t) => if before.len() < WIKIDATA_VALUES_PER_PROPERTY_LIMIT {
                before.push(t)
            } else {
                before
            },
            None => before,
        }
    }
}

/// The claims about a property as they are shown.
pub open spec fn property_of(
    property_id: Seq<char>,
    snaks: Seq<WikidataSnak>,
    labels: Map<Seq<char>, WikidataLabelInfo>,
    formatters: Map<Seq<char>, String>,
) -> PropertyView {
    PropertyView {
        property_id,
        property_label: match label_of(labels, property_id) {
            Some(label) => label,
            None => property_id,
        },
        total_values: snaks.len(),
        values: shown_values(property_id, snaks, labels, formatters),
    }
}

/// The claims about each property as they are shown, in the order of the claims.
pub open spec fn properties_of(
    claims: Seq<(String, Vec<WikidataSnak>)>,
    labels: Map<Seq<char>, WikidataLabelInfo>,
    formatters: Map<Seq<char>, String>,
) -> Seq<PropertyView> {
    Seq::new(
        claims.len(),
        |i: int| property_of(claims[i].0@, claims[i].1@, labels, formatters),
    )
}

/// The text by which properties are ordered.
pub open spec fn by_label() -> spec_fn(PropertyView) -> Seq<char> {
    |p: PropertyView| text::lower_text(p.property_label)
}

/// The claims of an entity.
pub open spec fn claims_of(entity: WikidataEntity) -> Seq<(String, Vec<WikidataSnak>)> {
    match entity.claims {
        Some(claims) => claims@,
        None => seq![],
    }
}

/// The claims of an item as they are shown, in the order of the properties' labels.
pub open spec fn item_claims(
    item: Seq<char>,
    language: Seq<char>,
    entity: WikidataEntity,
    labels: Map<Seq<char>, WikidataLabelInfo>,
    formatters: Map<Seq<char>, String>,
) -> ClaimsView {
    ClaimsView {
        item,
        label: if label_of(labels, item) is Some {
            label_of(labels, item)
        } else {
            localized(entity.labels, language)
        },
        description: if description_of(labels, item) is Some {
            description_of(labels, item)
        } else {
            localized(entity.descriptions, language)
        },
        property_count: claims_of(entity).len(),
        properties: ordering::sorted_by_text(
            properties_of(claims_of(entity), labels, formatters),
            by_label(),
        ),
    }
}

/// Renders the values of snaks.
fn render_values(
    property_id: &str,
    snaks: &Vec<WikidataSnak>,
    labels: &Cache<WikidataLabelInfo>,
    formatters: &Cache<String>,
) -> (r: Vec<String>)
    requires
        labels.well_formed(),
        formatters.well_formed(),
    ensures
        text::texts(r@) == shown_values(property_id@, snaks@, labels@, formatters@),
{
    let mut out: Vec<String> = Vec::new();
    assert(text::texts(out@) =~= seq![]);
    let mut i: usize = 0;
    assert(snaks@.take(0) =~= seq![]);
    while i < snaks.len()
        invariant
            i <= snaks.len(),
            labels.well_formed(),
            formatters.well_formed(),
            text::texts(out@) == shown_values(
                property_id@,
                snaks@.take(i as int),
                labels@,
                formatters@,
            ),
        decreases snaks.len() - i,
    {
        proof {
            assert(snaks@.take(i + 1).drop_last() =~= snaks@.take(i as int));
            assert(snaks@.take(i + 1).last() == snaks@[i as int]);
            assert(text::texts(out@).len() == out@.len());
        }
        if let Some(t) = render_wikidata_snak_value(property_id, &snaks[i], labels, formatters) {
            if out.len() < WIKIDATA_VALUES_PER_PROPERTY_LIMIT {
                proof {
                    text::lemma_texts_push(out@, t);
                }
                out.push(t);
            }
        }
        i += 1;
    }
    assert(snaks@.take(snaks.len() as int) =~= snaks@);
    out
}

/// Renders the claims about a property.
fn render_property(
    property_id: &str,
    snaks: &Vec<WikidataSnak>,
    labels: &Cache<WikidataLabelInfo>,
    formatters: &Cache<String>,
) -> (r: WikidataPropertyClaims)
    requires
        labels.well_formed(),
        formatters.well_formed(),
    ensures
        r@ == property_of(property_id@, snaks@, labels@, formatters@),
{
    let property_label = match wikidata_label_text(labels, property_id) {
        Some(label) => label,
        None => property_id.to_owned(),
    };
    WikidataPropertyClaims {
        property_id: property_id.to_owned(),
        property_label,
        total_values: snaks.len(),
        values: render_values(property_id, snaks, labels, formatters),
    }
}

/// Puts a property behind those whose labels do not come after its own.
fn place_property(list: &mut Vec<WikidataPropertyClaims>, property: WikidataPropertyClaims)
    ensures
        property_views(final(list)@) == property_views(old(list)@).insert(
            ordering::first_after(
                property_views(old(list)@),
                by_label(),
                by_label()(property@),
                0,
            ),
            property@,
        ),
{
    let ghost was = property_views(list@);
    let ghost k = by_label()(property@);
    let key = text::to_lowercase(property.property_label.as_str());
    let mut i: usize = 0;
    while i < list.len()
        invariant_except_break
            ordering::first_after(was, by_label(), k, 0) == ordering::first_after(
                was,
                by_label(),
                k,
                i as int,
            ),
        invariant
            i <= list.len(),
            was == property_views(list@),
            key@ == k,
        ensures
            ordering::first_after(was, by_label(), k, 0) == i,
        decreases list.len() - i,
    {
        let other = text::to_lowercase(list[i].property_label.as_str());
        assert(other@ == by_label()(was[i as int]));
        if text::comes_before(key.as_str(), other.as_str()) {
            break;
        }
        i += 1;
    }
    list.insert(i, property);
    assert(property_views(list@) =~= was.insert(i as int, property@));
}

/// Puts together the claims of an item: each property with its label and its first values, in the
/// order of the labels.
pub fn wikidata_claims(
    item: &str,
    language: &str,
    entity: &WikidataEntity,
    labels: &Cache<WikidataLabelInfo>,
    property_formatters: &Cache<String>,
) -> (r: WikidataClaims)
    requires
        labels.well_formed(),
        property_formatters.well_formed(),
    ensures
        r@ == item_claims(item@, language@, *entity, labels@, property_formatters@),
{
    let mut properties: Vec<WikidataPropertyClaims> = Vec::new();
    let ghost claims = claims_of(*entity);
    let ghost all = properties_of(claims, labels@, property_formatters@);
    assert(property_views(properties@) =~= seq![]);
    assert(all.take(0) =~= seq![]);
    let mut property_count: usize = 0;
    if let Some(list) = &entity.claims {
        let mut i: usize = 0;
        while i < list.len()
            invariant
                i <= list.len(),
                labels.well_formed(),
                property_formatters.well_formed(),
                claims == list@,
                all == properties_of(claims, labels@, property_formatters@),
                property_views(properties@) == ordering::sorted_by_text(
                    all.take(i as int),
                    by_label(),
                ),
            decreases list.len() - i,
        {
            proof {
                assert(all.take(i + 1).drop_last() =~= all.take(i as int));
                assert(all.take(i + 1).last() == all[i as int]);
            }
            let property = render_property(
                list[i].0.as_str(),
                &list[i].1,
                labels,
                property_formatters,
            );
            place_property(&mut properties, property);
            i += 1;
        }
        property_count = list.len();
    }
    assert(all.take(claims.len() as int) =~= all);
    let label = match wikidata_label_text(labels, item) {
        Some(label) => Some(label),
        None => wikidata_localized_entity_value(&entity.labels, language),
    };
    let description = match wikidata_description_text(labels, item) {
        Some(description) => Some(description),
        None => wikidata_localized_entity_value(&entity.descriptions, language),
    };
    WikidataClaims { item: item.to_owned(), label, description, property_count, properties }
}

// How it is shown.

/// The line of an item.
pub open spec fn item_line(claims: ClaimsView) -> Seq<char> {
    "<b>"@ + telegram::link(
        entity_url(claims.item),
        match claims.label {
            Some(label) => named(label, claims.item),
            None => claims.item,
        },
    ) + "</b>"@
}

/// The lines before the properties.
pub open spec fn head_lines(claims: ClaimsView) -> Seq<Seq<char>> {
    let first = seq![item_line(claims)];
    let second = match claims.description {
        Some(d) => first.push(escaping::html_text(d)),
        None => first,
    };
    second.push("Properties: "@ + numbers::numeral(claims.property_count))
}

/// The values of a property, and how many more there are.
pub open spec fn value_texts(p: PropertyView) -> Seq<Seq<char>> {
    let values = if p.values.len() == 0 {
        seq![escaping::html_text("no value"@)]
    } else {
        p.values
    };
    if p.total_values > values.len() {
        values.push(
            "+"@ + numbers::numeral((p.total_values - values.len()) as nat) + " more"@,
        )
    } else {
        values
    }
}

/// The line of a property.
pub open spec fn property_line(p: PropertyView) -> Seq<char> {
    telegram::link(entity_url(p.property_id), named(p.property_label, p.property_id)) + ": "@
        + text::joined(value_texts(p), ", "@)
}

/// The lines of the first `k` properties.
pub open spec fn property_lines(properties: Seq<PropertyView>, k: nat) -> Seq<Seq<char>> {
    Seq::new(k, |i: int| property_line(properties[i]))
}

/// The line that says how many properties are shown.
pub open spec fn closing_line(shown: nat, total: nat) -> Seq<char> {
    "Shown first "@ + numbers::numeral(shown) + " of "@ + numbers::numeral(total)
        + " properties."@
}

/// The claims of an item with the first `k` properties; where these are not all, a line says so.
pub open spec fn text_showing(claims: ClaimsView, k: nat) -> Seq<char> {
    let lines = head_lines(claims) + property_lines(claims.properties, k);
    text::joined(
        if k < claims.properties.len() {
            lines.push(closing_line(k, claims.properties.len()))
        } else {
            lines
        },
        "\n"@,
    )
}

/// How many properties are shown at most.
pub open spec fn most_shown(claims: ClaimsView) -> nat {
    if claims.properties.len() <= WIKIDATA_PROPERTY_DISPLAY_LIMIT {
        claims.properties.len()
    } else {
        WIKIDATA_PROPERTY_DISPLAY_LIMIT as nat
    }
}

/// The largest number of properties up to `k` with which the text fits. None where the heading
/// leaves no room for the line that says that none is shown.
pub open spec fn shown_within(claims: ClaimsView, limit: nat, k: nat) -> Option<nat>
    decreases k,
{
    if text_showing(claims, k).len() <= limit {
        Some(k)
    } else if k == 0 {
        None
    } else {
        shown_within(claims, limit, (k - 1) as nat)
    }
}

/// The claims of an item within a number of characters: as many properties as there is room for.
/// Where the heading fits but leaves no room for the line that says that none is shown, it stands
/// alone; where it does not fit either, it comes with that line.
pub open spec fn claims_text(claims: ClaimsView, limit: nat) -> Seq<char> {
    match shown_within(claims, limit, most_shown(claims)) {
        Some(k) => text_showing(claims, k),
        None => if text::joined(head_lines(claims), "\n"@).len() <= limit {
            text::joined(head_lines(claims), "\n"@)
        } else {
            text_showing(claims, 0)
        },
    }
}

/// Writes the line of a property.
fn format_property_line(property: &WikidataPropertyClaims) -> (r: String)
    ensures
        r@ == property_line(property@),
{
    let title = write_named(property.property_label.as_str(), property.property_id.as_str());
    let link = html_link(
        wikidata_entity_url(property.property_id.as_str()).as_str(),
        title.as_str(),
    );
    let mut values: Vec<String> = if property.values.len() == 0 {
        let none: Vec<String> = vec![escape_text("no value")];
        assert(text::texts(none@) =~= seq![escaping::html_text("no value"@)]);
        none
    } else {
        text::clone_texts(&property.values)
    };
    proof {
        assert(text::texts(values@).len() == values@.len());
        assert(text::texts(property.values@).len() == property.values@.len());
    }
    if property.total_values > values.len() {
        let more = "+".to_owned().concat(
            numbers::decimal((property.total_values - values.len()) as u64).as_str(),
        ).concat(" more");
        proof {
            text::lemma_texts_push(values@, more);
        }
        values.push(more);
    }
    link.concat(": ").concat(text::join(&values, ", ").as_str())
}

/// Writes the lines before the properties.
fn format_head_lines(claims: &WikidataClaims) -> (r: Vec<String>)
    ensures
        text::texts(r@) == head_lines(claims@),
{
    let title = match &claims.label {
        Some(label) => write_named(label.as_str(), claims.item.as_str()),
        None => claims.item.clone(),
    };
    let mut lines: Vec<String> = Vec::new();
    let first = "<b>".to_owned().concat(
        html_link(wikidata_entity_url(claims.item.as_str()).as_str(), title.as_str()).as_str(),
    ).concat("</b>");
    lines.push(first);
    assert(text::texts(lines@) =~= seq![item_line(claims@)]);
    if let Some(description) = &claims.description {
        let second = escape_text(description.as_str());
        proof {
            text::lemma_texts_push(lines@, second);
        }
        lines.push(second);
    }
    let count = "Properties: ".to_owned().concat(
        numbers::decimal(claims.property_count as u64).as_str(),
    );
    proof {
        text::lemma_texts_push(lines@, count);
    }
    lines.push(count);
    lines
}

/// Writes the line that says how many properties are shown.
fn format_closing_line(shown: usize, total: usize) -> (r: String)
    ensures
        r@ == closing_line(shown as nat, total as nat),
{
    "Shown first ".to_owned().concat(numbers::decimal(shown as u64).as_str()).concat(" of ").concat(
        numbers::decimal(total as u64).as_str(),
    ).concat(" properties.")
}

/// Writes the claims of an item with the properties whose lines are given.
fn format_text_showing(claims: &WikidataClaims, lines: &Vec<String>, shown: usize) -> (r: String)
    requires
        text::texts(lines@) == head_lines(claims@) + property_lines(
            claims@.properties,
            shown as nat,
        ),
    ensures
        r@ == text_showing(claims@, shown as nat),
{
    let mut all = text::clone_texts(lines);
    assert(claims.properties.len() == claims@.properties.len());
    if shown < claims.properties.len() {
        let closing = format_closing_line(shown, claims.properties.len());
        proof {
            text::lemma_texts_push(all@, closing);
        }
        all.push(closing);
    }
    text::join(&all, "\n")
}

/// Renders clickable Wikidata claims within a Telegram-safe character budget.
pub fn render_wikidata_claims_html(claims: &WikidataClaims, limit: usize) -> (r: String)
    ensures
        r@ == claims_text(claims@, limit as nat),
        text::joined(head_lines(claims@), "\n"@).len() <= limit ==> r@.len() <= limit,
{
    proof {
        law_claims_fit(claims@, limit as nat);
    }
    let mut lines = format_head_lines(claims);
    let ghost head = head_lines(claims@);
    let ghost properties = claims@.properties;
    assert(head + property_lines(properties, 0) =~= head);
    let mut shown: usize = 0;
    while shown < claims.properties.len() && shown < WIKIDATA_PROPERTY_DISPLAY_LIMIT
        invariant
            shown <= claims.properties.len(),
            shown <= WIKIDATA_PROPERTY_DISPLAY_LIMIT,
            properties == property_views(claims.properties@),
            text::texts(lines@) == head + property_lines(properties, shown as nat),
        decreases claims.properties.len() - shown,
    {
        assert(properties[shown as int] == claims.properties@[shown as int]@);
        let line = format_property_line(&claims.properties[shown]);
        proof {
            text::lemma_texts_push(lines@, line);
            assert(head + property_lines(properties, (shown + 1) as nat) =~= (head
                + property_lines(properties, shown as nat)).push(line@));
        }
        lines.push(line);
        shown += 1;
    }
    assert(claims.properties.len() == properties.len());
    assert(shown == most_shown(claims@));
    loop
        invariant
            head == head_lines(claims@),
            properties == claims@.properties,
            text::texts(lines@) == head + property_lines(properties, shown as nat),
            claims_text(claims@, limit as nat) == (match shown_within(
                claims@,
                limit as nat,
                shown as nat,
            ) {
                Some(k) => text_showing(claims@, k),
                None => if text::joined(head, "\n"@).len() <= limit {
                    text::joined(head, "\n"@)
                } else {
                    text_showing(claims@, 0)
                },
            }),
        decreases shown,
    {
        let written = format_text_showing(claims, &lines, shown);
        if written.as_str().unicode_len() <= limit {
            return written;
        }
        if shown == 0 {
            assert(head + property_lines(properties, 0) =~= head);
            let heading = text::join(&lines, "\n");
            return if heading.as_str().unicode_len() <= limit {
                heading
            } else {
                written
            };
        }
        let ghost was = lines@;
        lines.pop();
        shown -= 1;
        assert(text::texts(lines@) =~= text::texts(was).drop_last());
        assert(head + property_lines(properties, shown as nat) =~= (head + property_lines(
            properties,
            (shown + 1) as nat,
        )).drop_last());
    }
}

/// The number of properties that are shown is the largest with which the text fits.
proof fn lemma_shown_within(claims: ClaimsView, limit: nat, k: nat)
    ensures
        match shown_within(claims, limit, k) {
            Some(n) => n <= k && text_showing(claims, n).len() <= limit && forall|m: nat|
                n < m <= k ==> (#[trigger] text_showing(claims, m)).len() > limit,
            None => forall|m: nat| m <= k ==> (#[trigger] text_showing(claims, m)).len() > limit,
        },
    decreases k,
{
    if text_showing(claims, k).len() > limit && k > 0 {
        lemma_shown_within(claims, limit, (k - 1) as nat);
    }
}

/// The claims of an item fit where its heading does. The properties shown are the first ones, as
/// many as fit and no more than may be shown, and where these are not all the last line says so.
/// Only where the heading fits and leaves no room for that line is the heading all.
pub proof fn law_claims_fit(claims: ClaimsView, limit: nat)
    ensures
        text::joined(head_lines(claims), "\n"@).len() <= limit ==> claims_text(claims, limit).len()
            <= limit,
        match shown_within(claims, limit, most_shown(claims)) {
            Some(k) => {
                &&& k <= claims.properties.len()
                &&& k <= WIKIDATA_PROPERTY_DISPLAY_LIMIT
                &&& claims_text(claims, limit) == text_showing(claims, k)
                &&& claims_text(claims, limit).len() <= limit
                &&& forall|m: nat|
                    k < m <= most_shown(claims) ==> (#[trigger] text_showing(claims, m)).len()
                        > limit
            },
            None => {
                &&& text_showing(claims, 0).len() > limit
                &&& claims_text(claims, limit) == (if text::joined(
                    head_lines(claims),
                    "\n"@,
                ).len() <= limit {
                    text::joined(head_lines(claims), "\n"@)
                } else {
                    text_showing(claims, 0)
                })
            },
        },
{
    lemma_shown_within(claims, limit, most_shown(claims));
}

/// The properties that are shown stand in the order of their labels, and none is lost or added.
pub proof fn law_properties_in_order(
    item: Seq<char>,
    language: Seq<char>,
    entity: WikidataEntity,
    labels: Map<Seq<char>, WikidataLabelInfo>,
    formatters: Map<Seq<char>, String>,
)
    ensures
        ({
            let shown = item_claims(item, language, entity, labels, formatters).properties;
            &&& ordering::in_text_order(shown, by_label())
            &&& shown.to_multiset() == properties_of(
                claims_of(entity),
                labels,
                formatters,
            ).to_multiset()
        }),
{
    ordering::law_sorted_by_text(
        properties_of(claims_of(entity), labels, formatters),
        by_label(),
    );
}

} // verus!
