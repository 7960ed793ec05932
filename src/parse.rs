//! Reading a recipe out of a structured document.

use vstd::prelude::*;
use crate::doc::{read_document, yaml_document, Doc, DocView};
use crate::duration::{digits_value, duration_seconds, is_digit};
use crate::error::decimal;
use crate::protocol::{CellRef, EmailField};
use crate::duration::{parse_duration, Duration};
use crate::error::FlowError;
use crate::recipe::{
    ConfigView, CredentialSource, EmailStep, FlowConfig, GoogleSheetStep, RefView, SourceView, Step,
    StepView, TelegramStep, ValueRef,
};

verus! {

/// The keys of a mapping node, as views.
pub open spec fn keys_view(entries: Seq<(Doc, Doc)>) -> Seq<DocView> {
    Seq::new(entries.len(), |i: int| entries[i].0@)
}

/// The values of a mapping node, as views.
pub open spec fn values_view(entries: Seq<(Doc, Doc)>) -> Seq<DocView> {
    Seq::new(entries.len(), |i: int| entries[i].1@)
}

/// The entries of a mapping node, as views.
pub open spec fn entries_view(entries: Seq<(Doc, Doc)>) -> Seq<(DocView, DocView)> {
    Seq::new(entries.len(), |i: int| (entries[i].0@, entries[i].1@))
}

/// The entries of a mapping node made of `keys` and `values`.
pub open spec fn zip_entries(keys: Seq<DocView>, values: Seq<DocView>) -> Seq<(DocView, DocView)> {
    Seq::new(keys.len(), |i: int| (keys[i], values[i]))
}

/// The items of a list node, as views.
pub open spec fn items_view(items: Seq<Doc>) -> Seq<DocView> {
    Seq::new(items.len(), |i: int| items[i]@)
}

pub(crate) proof fn lemma_mapping_view(entries: &Vec<(Doc, Doc)>)
    ensures
        Doc::Mapping(*entries)@ == DocView::Mapping(keys_view(entries@), values_view(entries@)),
        zip_entries(keys_view(entries@), values_view(entries@)) == entries_view(entries@),
{
    assert(zip_entries(keys_view(entries@), values_view(entries@)) =~= entries_view(entries@));
    let v = Doc::Mapping(*entries).view();
    assert(v->Mapping_0 =~= keys_view(entries@));
    assert(v->Mapping_1 =~= values_view(entries@));
}

pub(crate) proof fn lemma_list_view(items: &Vec<Doc>)
    ensures
        Doc::List(*items)@ == DocView::List(items_view(items@)),
{
    let v = Doc::List(*items).view();
    let xs = v->List_0;
    assert(xs =~= items_view(items@));
}

/// The value under the first entry whose key is the text `key`.
pub open spec fn field(entries: Seq<(DocView, DocView)>, key: Seq<char>) -> Option<DocView>
    decreases entries.len(),
{
    if entries.len() == 0 {
        None
    } else if entries[0].0 == DocView::Text(key) {
        Some(entries[0].1)
    } else {
        field(entries.drop_first(), key)
    }
}

/// `s` holds the text `lit`.
fn text_is(s: &String, lit: &str) -> (r: bool)
    ensures
        r == (s@ == lit@),
{
    *s == String::from_str(lit)
}

/// The view of an optional node.
pub open spec fn opt_doc_view(d: Option<&Doc>) -> Option<DocView> {
    match d {
        Some(x) => Some(x@),
        None => None,
    }
}

/// `r` is the exec form of `s`: the same value, or the same reason.
pub open spec fn agrees<T: View>(r: Result<T, String>, s: Result<T::V, Seq<char>>) -> bool {
    match s {
        Ok(v) => r matches Ok(x) && x@ == v,
        Err(e) => r matches Err(m) && m@ == e,
    }
}

/// The value under the first entry whose key is the text `key`.
fn get_field<'a>(entries: &'a Vec<(Doc, Doc)>, key: &str) -> (r: Option<&'a Doc>)
    ensures
        match field(entries_view(entries@), key@) {
            Some(v) => r matches Some(d) && d@ == v,
            None => r is None,
        },
        opt_doc_view(r) == field(entries_view(entries@), key@),
{
    let ghost ev = entries_view(entries@);
    let mut i: usize = 0;
    assert(ev.skip(0) == ev);
    while i < entries.len()
        invariant
            i <= entries@.len(),
            ev == entries_view(entries@),
            field(ev, key@) == field(ev.skip(i as int), key@),
        decreases entries@.len() - i,
    {
        let ghost rest = ev.skip(i as int);
        assert(rest[0] == ev[i as int]);
        assert(rest.drop_first() == ev.skip(i + 1));
        let hit = match &entries[i].0 {
            Doc::Text(k) => text_is(k, key),
            _ => false,
        };
        assert(hit == (ev[i as int].0 == DocView::Text(key@)));
        if hit {
            return Some(&entries[i].1);
        }
        i = i + 1;
    }
    None
}

/// The source fields of a value map.
pub struct Fields {
    pub value: Option<Seq<char>>,
    pub env: Option<Seq<char>>,
    pub credential: Option<Seq<char>>,
    pub var: Option<Seq<char>>,
}

/// A value map without fields.
pub open spec fn no_fields() -> Fields {
    Fields { value: None, env: None, credential: None, var: None }
}

/// `f` with one more entry of a value map: the key must be one of `value`,
/// `env`, `credential` and `var`, not seen before, and its value a string.
pub open spec fn add_field(f: Fields, e: (DocView, DocView)) -> Result<Fields, Seq<char>> {
    match e.0 {
        DocView::Text(k) => if k != "value"@ && k != "env"@ && k != "credential"@ && k != "var"@ {
            Err("unknown field '"@ + k + "', expected one of 'value', 'env', 'credential', 'var'"@)
        } else if (k == "value"@ && f.value is Some) || (k == "env"@ && f.env is Some) || (k
            == "credential"@ && f.credential is Some) || (k == "var"@ && f.var is Some) {
            Err("duplicate '"@ + k + "' field"@)
        } else {
            match e.1 {
                DocView::Text(v) => Ok(
                    if k == "value"@ {
                        Fields { value: Some(v), ..f }
                    } else if k == "env"@ {
                        Fields { env: Some(v), ..f }
                    } else if k == "credential"@ {
                        Fields { credential: Some(v), ..f }
                    } else {
                        Fields { var: Some(v), ..f }
                    },
                ),
                _ => Err("field '"@ + k + "' must be a string"@),
            }
        },
        _ => Err("value map keys must be strings"@),
    }
}

/// `f` with the entries added one by one, from the first on.
pub open spec fn fields_from(f: Fields, entries: Seq<(DocView, DocView)>) -> Result<
    Fields,
    Seq<char>,
>
    decreases entries.len(),
{
    if entries.len() == 0 {
        Ok(f)
    } else {
        match add_field(f, entries[0]) {
            Ok(g) => fields_from(g, entries.drop_first()),
            Err(e) => Err(e),
        }
    }
}

/// The fields of a value map.
pub open spec fn value_fields(entries: Seq<(DocView, DocView)>) -> Result<Fields, Seq<char>> {
    fields_from(no_fields(), entries)
}

/// A value reference from its fields: exactly one source must be given.
pub open spec fn ref_from_fields(f: Fields) -> Result<RefView, Seq<char>> {
    match (f.value, f.env, f.credential, f.var) {
        (Some(v), None, None, None) => Ok(RefView::Literal(v)),
        (None, Some(v), None, None) => Ok(RefView::Env(v)),
        (None, None, Some(v), None) => Ok(RefView::Credential(v)),
        (None, None, None, Some(v)) => Ok(RefView::Variable(v)),
        (None, None, None, None) => Err(
            "value reference must specify one of 'value', 'env', 'credential', or 'var'"@,
        ),
        _ => Err("value reference must specify only one source"@),
    }
}

/// A credential source from its fields: exactly one of `value` and `env`.
pub open spec fn source_from_fields(f: Fields) -> Result<SourceView, Seq<char>> {
    if f.credential is Some || f.var is Some {
        Err("credential may only specify 'value' or 'env'"@)
    } else {
        match (f.value, f.env) {
            (Some(v), None) => Ok(SourceView::Value(v)),
            (None, Some(v)) => Ok(SourceView::EnvVar(v)),
            (Some(_), Some(_)) => Err("credential must specify either 'value' or 'env'"@),
            (None, None) => Err("credential must specify 'value' or 'env'"@),
        }
    }
}

/// A value reference: a bare string is a literal; a value map names its source.
pub open spec fn ref_from_doc(d: DocView) -> Result<RefView, Seq<char>> {
    match d {
        DocView::Text(s) => Ok(RefView::Literal(s)),
        DocView::Mapping(ks, vs) => match value_fields(zip_entries(ks, vs)) {
            Ok(f) => ref_from_fields(f),
            Err(e) => Err(e),
        },
        _ => Err("expected a string or a value reference map"@),
    }
}

/// The source fields of a value map; the exec form of [`Fields`].
pub struct ValueMap {
    pub value: Option<String>,
    pub env: Option<String>,
    pub credential: Option<String>,
    pub var: Option<String>,
}

impl View for ValueMap {
    type V = Fields;

    open spec fn view(&self) -> Fields {
        Fields {
            value: crate::recipe::opt_view(self.value),
            env: crate::recipe::opt_view(self.env),
            credential: crate::recipe::opt_view(self.credential),
            var: crate::recipe::opt_view(self.var),
        }
    }
}

/// Reads the entries of a value map; see [`value_fields`].
fn read_fields(entries: &Vec<(Doc, Doc)>) -> (r: Result<ValueMap, String>)
    ensures
        match value_fields(entries_view(entries@)) {
            Ok(f) => r matches Ok(v) && v@ == f,
            Err(e) => r matches Err(m) && m@ == e,
        },
{
    let ghost ev = entries_view(entries@);
    let mut f = ValueMap { value: None, env: None, credential: None, var: None };
    let mut i: usize = 0;
    assert(ev.skip(0) == ev);
    while i < entries.len()
        invariant
            i <= entries@.len(),
            ev == entries_view(entries@),
            value_fields(ev) == fields_from(f@, ev.skip(i as int)),
        decreases entries@.len() - i,
    {
        assert(ev.skip(i as int)[0] == ev[i as int]);
        assert(ev.skip(i as int).drop_first() == ev.skip(i + 1));
        let (kd, vd) = (&entries[i].0, &entries[i].1);
        let key = match kd {
            Doc::Text(k) => k,
            _ => {
                return Err(String::from_str("value map keys must be strings"));
            },
        };
        let is_value = text_is(key, "value");
        let is_env = text_is(key, "env");
        let is_credential = text_is(key, "credential");
        let is_var = text_is(key, "var");
        if !is_value && !is_env && !is_credential && !is_var {
            return Err(
                crate::error::joined(
                    "unknown field '",
                    key.as_str(),
                    "', expected one of 'value', 'env', 'credential', 'var'",
                ),
            );
        }
        if (is_value && f.value.is_some()) || (is_env && f.env.is_some()) || (is_credential
            && f.credential.is_some()) || (is_var && f.var.is_some()) {
            return Err(crate::error::joined("duplicate '", key.as_str(), "' field"));
        }
        let v = match vd {
            Doc::Text(v) => v.clone(),
            _ => {
                return Err(crate::error::joined("field '", key.as_str(), "' must be a string"));
            },
        };
        if is_value {
            f.value = Some(v);
        } else if is_env {
            f.env = Some(v);
        } else if is_credential {
            f.credential = Some(v);
        } else {
            f.var = Some(v);
        }
        i = i + 1;
    }
    Ok(f)
}

impl ValueRef {
    /// The reference a value map describes; see [`ref_from_fields`].
    pub fn from_map(map: ValueMap) -> (r: Result<ValueRef, String>)
        ensures
            agrees(r, ref_from_fields(map@)),
    {
        let ValueMap { value, env, credential, var } = map;
        match (value, env, credential, var) {
            (Some(v), None, None, None) => Ok(ValueRef::Literal(v)),
            (None, Some(v), None, None) => Ok(ValueRef::Env(v)),
            (None, None, Some(v), None) => Ok(ValueRef::Credential(v)),
            (None, None, None, Some(v)) => Ok(ValueRef::Variable(v)),
            (None, None, None, None) => Err(
                String::from_str(
                    "value reference must specify one of 'value', 'env', 'credential', or 'var'",
                ),
            ),
            _ => Err(String::from_str("value reference must specify only one source")),
        }
    }
}

impl CredentialSource {
    /// The credential source a value map describes; see
    /// [`source_from_fields`].
    pub fn from_map(map: ValueMap) -> (r: Result<CredentialSource, String>)
        ensures
            agrees(r, source_from_fields(map@)),
    {
        let ValueMap { value, env, credential, var } = map;
        if credential.is_some() || var.is_some() {
            return Err(String::from_str("credential may only specify 'value' or 'env'"));
        }
        match (value, env) {
            (Some(v), None) => Ok(CredentialSource::Value(v)),
            (None, Some(v)) => Ok(CredentialSource::EnvVar(v)),
            (Some(_), Some(_)) => Err(
                String::from_str("credential must specify either 'value' or 'env'"),
            ),
            (None, None) => Err(String::from_str("credential must specify 'value' or 'env'")),
        }
    }
}

/// Reads a value reference; see [`ref_from_doc`].
pub fn read_ref(d: &Doc) -> (r: Result<ValueRef, String>)
    ensures
        match ref_from_doc(d@) {
            Ok(v) => r matches Ok(x) && x@ == v,
            Err(e) => r matches Err(m) && m@ == e,
        },
{
    match d {
        Doc::Text(s) => Ok(ValueRef::Literal(s.clone())),
        Doc::Mapping(entries) => {
            proof {
                lemma_mapping_view(entries);
            }
            match read_fields(entries) {
                Ok(f) => ValueRef::from_map(f),
                Err(e) => Err(e),
            }
        },
        _ => Err(String::from_str("expected a string or a value reference map")),
    }
}

/// Reads a credential source from a value map's entries; see
/// [`source_from_fields`].
fn read_source(entries: &Vec<(Doc, Doc)>) -> (r: Result<CredentialSource, String>)
    ensures
        match value_fields(entries_view(entries@)) {
            Ok(f) => match source_from_fields(f) {
                Ok(s) => r matches Ok(x) && x@ == s,
                Err(e) => r matches Err(m) && m@ == e,
            },
            Err(e) => r matches Err(m) && m@ == e,
        },
{
    match read_fields(entries) {
        Ok(f) => CredentialSource::from_map(f),
        Err(e) => Err(e),
    }
}

/// The reason given when `key` is absent.
pub open spec fn missing(key: Seq<char>) -> Seq<char> {
    "missing field '"@ + key + "'"@
}

/// The reason given when `key` holds something other than a string.
pub open spec fn not_text(key: Seq<char>) -> Seq<char> {
    "field '"@ + key + "' must be a string"@
}

/// The reason given when `key` holds something other than a mapping.
pub open spec fn not_mapping(key: Seq<char>) -> Seq<char> {
    "field '"@ + key + "' must be a mapping"@
}

/// The reason given when `key` holds something other than a list.
pub open spec fn not_list(key: Seq<char>) -> Seq<char> {
    "field '"@ + key + "' must be a list"@
}

/// The reason given when `key` holds something other than a 32-bit unsigned
/// integer.
pub open spec fn not_u32(key: Seq<char>) -> Seq<char> {
    "field '"@ + key + "' must be an unsigned 32-bit integer"@
}

/// The reason given when a credential's definition is wrong.
pub open spec fn credential_error(name: Seq<char>, reason: Seq<char>) -> Seq<char> {
    "credential '"@ + name + "': "@ + reason
}

/// One credential entry: a text name, and a value map giving its source.
pub open spec fn credential_from(e: (DocView, DocView)) -> Result<
    (Seq<char>, SourceView),
    Seq<char>,
> {
    match e.0 {
        DocView::Text(name) => match e.1 {
            DocView::Mapping(ks, vs) => match value_fields(zip_entries(ks, vs)) {
                Ok(f) => match source_from_fields(f) {
                    Ok(src) => Ok((name, src)),
                    Err(r) => Err(credential_error(name, r)),
                },
                Err(r) => Err(credential_error(name, r)),
            },
            _ => Err(credential_error(name, "expected a credential definition"@)),
        },
        _ => Err("credential names must be strings"@),
    }
}

/// `acc` followed by the credentials of `entries`, in order.
pub open spec fn credentials_from(
    acc: Seq<(Seq<char>, SourceView)>,
    entries: Seq<(DocView, DocView)>,
) -> Result<Seq<(Seq<char>, SourceView)>, Seq<char>>
    decreases entries.len(),
{
    if entries.len() == 0 {
        Ok(acc)
    } else {
        match credential_from(entries[0]) {
            Ok(c) => credentials_from(acc.push(c), entries.drop_first()),
            Err(e) => Err(e),
        }
    }
}

/// The `credentials` section: absent or empty means no credentials.
pub open spec fn credentials_section(d: Option<DocView>) -> Result<
    Seq<(Seq<char>, SourceView)>,
    Seq<char>,
> {
    match d {
        None => Ok(Seq::empty()),
        Some(DocView::Null) => Ok(Seq::empty()),
        Some(DocView::Mapping(ks, vs)) => credentials_from(Seq::empty(), zip_entries(ks, vs)),
        Some(_) => Err(not_mapping("credentials"@)),
    }
}

/// A required string field.
pub open spec fn text_field(d: Option<DocView>, key: Seq<char>) -> Result<Seq<char>, Seq<char>> {
    match d {
        Some(DocView::Text(s)) => Ok(s),
        Some(_) => Err(not_text(key)),
        None => Err(missing(key)),
    }
}

/// An optional string field; null counts as absent.
pub open spec fn opt_text_field(d: Option<DocView>, key: Seq<char>) -> Result<
    Option<Seq<char>>,
    Seq<char>,
> {
    match d {
        Some(DocView::Text(s)) => Ok(Some(s)),
        Some(DocView::Null) => Ok(None),
        Some(_) => Err(not_text(key)),
        None => Ok(None),
    }
}

/// A required value-reference field.
pub open spec fn ref_field(d: Option<DocView>, key: Seq<char>) -> Result<RefView, Seq<char>> {
    match d {
        Some(x) => match ref_from_doc(x) {
            Ok(r) => Ok(r),
            Err(e) => Err("field '"@ + key + "': "@ + e),
        },
        None => Err(missing(key)),
    }
}

/// An optional value-reference field; null counts as absent.
pub open spec fn opt_ref_field(d: Option<DocView>, key: Seq<char>) -> Result<
    Option<RefView>,
    Seq<char>,
> {
    match d {
        Some(DocView::Null) => Ok(None),
        Some(x) => match ref_from_doc(x) {
            Ok(r) => Ok(Some(r)),
            Err(e) => Err("field '"@ + key + "': "@ + e),
        },
        None => Ok(None),
    }
}

/// A number node that holds an integer in `0..=u32::MAX`.
pub open spec fn number_u32(d: DocView) -> Option<u32> {
    match d {
        DocView::Number(s) => if s.len() > 0 && (forall|i: int| 0 <= i < s.len() ==> is_digit(s[i]))
            && digits_value(s) <= u32::MAX {
            Some(digits_value(s) as u32)
        } else {
            None
        },
        _ => None,
    }
}

/// A required field holding an integer in `0..=u32::MAX`.
pub open spec fn u32_field(d: Option<DocView>, key: Seq<char>) -> Result<u32, Seq<char>> {
    match d {
        Some(x) => match number_u32(x) {
            Some(n) => Ok(n),
            None => Err(not_u32(key)),
        },
        None => Err(missing(key)),
    }
}

/// The required `cell` field: a mapping with `row` and `column`.
pub open spec fn cell_field(d: Option<DocView>) -> Result<CellRef, Seq<char>> {
    match d {
        Some(DocView::Mapping(ks, vs)) => match u32_field(field(zip_entries(ks, vs), "row"@), "row"@) {
            Ok(row) => match u32_field(field(zip_entries(ks, vs), "column"@), "column"@) {
                Ok(column) => Ok(CellRef { row, column }),
                Err(e) => Err(e),
            },
            Err(e) => Err(e),
        },
        Some(_) => Err(not_mapping("cell"@)),
        None => Err(missing("cell"@)),
    }
}

/// The required `field` of an email step.
pub open spec fn email_field(d: Option<DocView>) -> Result<EmailField, Seq<char>> {
    match text_field(d, "field"@) {
        Ok(s) => if s == "subject"@ {
            Ok(EmailField::Subject)
        } else if s == "sender"@ {
            Ok(EmailField::Sender)
        } else if s == "recipient"@ {
            Ok(EmailField::Recipient)
        } else {
            Err("unknown email field '"@ + s + "'"@)
        },
        Err(e) => Err(e),
    }
}

/// A spreadsheet step from its entries.
pub open spec fn sheet_step(es: Seq<(DocView, DocView)>) -> Result<StepView, Seq<char>> {
    match ref_field(field(es, "sheet_id"@), "sheet_id"@) {
        Err(e) => Err(e),
        Ok(sheet_id) => match opt_ref_field(field(es, "worksheet"@), "worksheet"@) {
            Err(e) => Err(e),
            Ok(worksheet) => match cell_field(field(es, "cell"@)) {
                Err(e) => Err(e),
                Ok(cell) => match text_field(field(es, "store_as"@), "store_as"@) {
                    Err(e) => Err(e),
                    Ok(store_as) => match opt_text_field(field(es, "credentials"@), "credentials"@) {
                        Err(e) => Err(e),
                        Ok(credentials) => Ok(
                            StepView::GoogleSheet { sheet_id, worksheet, cell, store_as, credentials },
                        ),
                    },
                },
            },
        },
    }
}

/// An email step from its entries.
pub open spec fn email_step(es: Seq<(DocView, DocView)>) -> Result<StepView, Seq<char>> {
    match ref_field(field(es, "account"@), "account"@) {
        Err(e) => Err(e),
        Ok(account) => match email_field(field(es, "field"@)) {
            Err(e) => Err(e),
            Ok(fld) => match ref_field(field(es, "regex"@), "regex"@) {
                Err(e) => Err(e),
                Ok(regex) => match opt_text_field(field(es, "store_as"@), "store_as"@) {
                    Err(e) => Err(e),
                    Ok(store_as) => match opt_text_field(field(es, "credentials"@), "credentials"@) {
                        Err(e) => Err(e),
                        Ok(credentials) => Ok(
                            StepView::Email { account, field: fld, regex, store_as, credentials },
                        ),
                    },
                },
            },
        },
    }
}

/// A chat step from its entries.
pub open spec fn telegram_step(es: Seq<(DocView, DocView)>) -> Result<StepView, Seq<char>> {
    match ref_field(field(es, "chat_id"@), "chat_id"@) {
        Err(e) => Err(e),
        Ok(chat_id) => match ref_field(field(es, "message"@), "message"@) {
            Err(e) => Err(e),
            Ok(message) => match opt_text_field(field(es, "credentials"@), "credentials"@) {
                Err(e) => Err(e),
                Ok(credentials) => Ok(StepView::Telegram { chat_id, message, credentials }),
            },
        },
    }
}

/// One step: a mapping whose `type` selects its shape. Other keys are ignored.
pub open spec fn step_from_doc(d: DocView) -> Result<StepView, Seq<char>> {
    match d {
        DocView::Mapping(ks, vs) => {
            let es = zip_entries(ks, vs);
            match text_field(field(es, "type"@), "type"@) {
                Err(e) => Err(e),
                Ok(t) => if t == "google_sheet"@ {
                    sheet_step(es)
                } else if t == "email"@ {
                    email_step(es)
                } else if t == "telegram"@ {
                    telegram_step(es)
                } else {
                    Err("unknown step type '"@ + t + "'"@)
                },
            }
        },
        _ => Err("each step must be a mapping"@),
    }
}

/// `acc` followed by the steps of `items`; a failure names the step, counted
/// from one.
pub open spec fn steps_from(acc: Seq<StepView>, items: Seq<DocView>) -> Result<
    Seq<StepView>,
    Seq<char>,
>
    decreases items.len(),
{
    if items.len() == 0 {
        Ok(acc)
    } else {
        match step_from_doc(items[0]) {
            Ok(s) => steps_from(acc.push(s), items.drop_first()),
            Err(e) => Err("step "@ + decimal(acc.len() + 1) + ": "@ + e),
        }
    }
}

/// The required `steps` section; empty counts as no steps.
pub open spec fn steps_section(d: Option<DocView>) -> Result<Seq<StepView>, Seq<char>> {
    match d {
        Some(DocView::List(xs)) => steps_from(Seq::empty(), xs),
        Some(DocView::Null) => Ok(Seq::empty()),
        Some(_) => Err(not_list("steps"@)),
        None => Err(missing("steps"@)),
    }
}

/// The required `run_every` section, in seconds.
pub open spec fn run_every_section(d: Option<DocView>) -> Result<nat, Seq<char>> {
    match text_field(d, "run_every"@) {
        Ok(s) => match duration_seconds(s) {
            Some(n) => Ok(n),
            None => Err("invalid run_every value"@),
        },
        Err(e) => Err(e),
    }
}

/// The recipe that a document describes, or the reason it describes none.
/// Top-level keys other than `run_every`, `credentials` and `steps` are ignored.
pub open spec fn config_from_doc(d: DocView) -> Result<ConfigView, Seq<char>> {
    match d {
        DocView::Mapping(ks, vs) => {
            let es = zip_entries(ks, vs);
            match run_every_section(field(es, "run_every"@)) {
                Err(e) => Err(e),
                Ok(run_every) => match credentials_section(field(es, "credentials"@)) {
                    Err(e) => Err(e),
                    Ok(credentials) => match steps_section(field(es, "steps"@)) {
                        Err(e) => Err(e),
                        Ok(steps) => Ok(ConfigView { run_every, credentials, steps }),
                    },
                },
            }
        },
        _ => Err("a recipe must be a mapping"@),
    }
}

/// Reads a required string field; see [`text_field`].
fn read_text(d: Option<&Doc>, key: &str) -> (r: Result<String, String>)
    ensures
        agrees(r, text_field(opt_doc_view(d), key@)),
{
    match d {
        Some(Doc::Text(s)) => {
            Ok(s.clone())
        },
        Some(_) => Err(crate::error::joined("field '", key, "' must be a string")),
        None => Err(crate::error::joined("missing field '", key, "'")),
    }
}

/// Reads an optional string field; see [`opt_text_field`].
fn read_opt_text(d: Option<&Doc>, key: &str) -> (r: Result<Option<String>, String>)
    ensures
        match opt_text_field(opt_doc_view(d), key@) {
            Ok(v) => r matches Ok(x) && crate::recipe::opt_view(x) == v,
            Err(e) => r matches Err(m) && m@ == e,
        },
{
    match d {
        Some(Doc::Text(s)) => Ok(Some(s.clone())),
        Some(Doc::Null) => Ok(None),
        Some(_) => Err(crate::error::joined("field '", key, "' must be a string")),
        None => Ok(None),
    }
}

/// Reads a required value-reference field; see [`ref_field`].
fn read_ref_field(d: Option<&Doc>, key: &str) -> (r: Result<ValueRef, String>)
    ensures
        agrees(r, ref_field(opt_doc_view(d), key@)),
{
    match d {
        Some(x) => match read_ref(x) {
            Ok(v) => Ok(v),
            Err(e) => {
                let mut m = crate::error::joined("field '", key, "': ");
                m.append(e.as_str());
                Err(m)
            },
        },
        None => Err(crate::error::joined("missing field '", key, "'")),
    }
}

/// Reads an optional value-reference field; see [`opt_ref_field`].
fn read_opt_ref_field(d: Option<&Doc>, key: &str) -> (r: Result<Option<ValueRef>, String>)
    ensures
        match opt_ref_field(opt_doc_view(d), key@) {
            Ok(v) => r matches Ok(x) && crate::recipe::opt_ref_view(x) == v,
            Err(e) => r matches Err(m) && m@ == e,
        },
{
    match d {
        Some(Doc::Null) => Ok(None),
        Some(x) => match read_ref(x) {
            Ok(v) => Ok(Some(v)),
            Err(e) => {
                let mut m = crate::error::joined("field '", key, "': ");
                m.append(e.as_str());
                Err(m)
            },
        },
        None => Ok(None),
    }
}

/// The number that the text `s` spells, when it is a non-empty run of digits
/// whose value fits in 32 bits.
fn number_value(s: &String) -> (r: Option<u32>)
    ensures
        r == number_u32(DocView::Number(s@)),
{
    let cs = crate::text::chars_of(s.as_str());
    if cs.len() == 0 {
        return None;
    }
    let mut value: u64 = 0;
    let mut i: usize = 0;
    while i < cs.len()
        invariant
            i <= cs@.len(),
            cs@ == s@,
            cs@.len() > 0,
            forall|j: int| 0 <= j < i ==> is_digit(cs@[j]),
            value == digits_value(cs@.subrange(0, i as int)),
            value <= u32::MAX,
        decreases cs@.len() - i,
    {
        let c = cs[i];
        if !('0' <= c && c <= '9') {
            return None;
        }
        let d: u64 = (c as u32 - '0' as u32) as u64;
        assert(cs@.subrange(0, i + 1 as int).drop_last() == cs@.subrange(0, i as int));
        value = value * 10 + d;
        if value > 4294967295 {
            proof {
                lemma_digits_at_least(cs@, (i + 1) as nat);
            }
            return None;
        }
        i = i + 1;
    }
    assert(cs@.subrange(0, i as int) == cs@);
    Some(value as u32)
}

proof fn lemma_digits_at_least(s: Seq<char>, k: nat)
    requires
        k <= s.len(),
    ensures
        digits_value(s.subrange(0, k as int)) <= digits_value(s),
    decreases s.len() - k,
{
    if k < s.len() {
        lemma_digits_at_least(s, k + 1);
        assert(s.subrange(0, k + 1 as int).drop_last() == s.subrange(0, k as int));
    } else {
        assert(s.subrange(0, k as int) == s);
    }
}

/// Reads a required 32-bit unsigned field; see [`u32_field`].
fn read_u32_field(d: Option<&Doc>, key: &str) -> (r: Result<u32, String>)
    ensures
        agrees(r, u32_field(opt_doc_view(d), key@)),
{
    match d {
        Some(x) => {
            let n = match x {
                Doc::Number(s) => number_value(s),
                _ => None,
            };
            match n {
                Some(n) => Ok(n),
                None => Err(
                    crate::error::joined("field '", key, "' must be an unsigned 32-bit integer"),
                ),
            }
        },
        None => Err(crate::error::joined("missing field '", key, "'")),
    }
}

/// Reads the `cell` field; see [`cell_field`].
fn read_cell(d: Option<&Doc>) -> (r: Result<CellRef, String>)
    ensures
        agrees(r, cell_field(opt_doc_view(d))),
{
    match d {
        Some(Doc::Mapping(entries)) => {
            proof {
                lemma_mapping_view(entries);
            }
            let row = match read_u32_field(get_field(entries, "row"), "row") {
                Ok(n) => n,
                Err(e) => {
                    return Err(e);
                },
            };
            let column = match read_u32_field(get_field(entries, "column"), "column") {
                Ok(n) => n,
                Err(e) => {
                    return Err(e);
                },
            };
            Ok(CellRef { row, column })
        },
        Some(_) => Err(crate::error::joined("field '", "cell", "' must be a mapping")),
        None => Err(crate::error::joined("missing field '", "cell", "'")),
    }
}

/// Reads the `field` of an email step; see [`email_field`].
fn read_email_field(d: Option<&Doc>) -> (r: Result<EmailField, String>)
    ensures
        agrees(r, email_field(opt_doc_view(d))),
{
    let s = match read_text(d, "field") {
        Ok(s) => s,
        Err(e) => {
            return Err(e);
        },
    };
    if text_is(&s, "subject") {
        Ok(EmailField::Subject)
    } else if text_is(&s, "sender") {
        Ok(EmailField::Sender)
    } else if text_is(&s, "recipient") {
        Ok(EmailField::Recipient)
    } else {
        Err(crate::error::joined("unknown email field '", s.as_str(), "'"))
    }
}

/// Reads one step; see [`step_from_doc`].
fn read_step(d: &Doc) -> (r: Result<Step, String>)
    ensures
        agrees(r, step_from_doc(d@)),
{
    let entries = match d {
        Doc::Mapping(entries) => entries,
        _ => {
            return Err(String::from_str("each step must be a mapping"));
        },
    };
    proof {
        lemma_mapping_view(entries);
    }
    let kind = match read_text(get_field(entries, "type"), "type") {
        Ok(t) => t,
        Err(e) => {
            return Err(e);
        },
    };
    if text_is(&kind, "google_sheet") {
        let sheet_id = match read_ref_field(get_field(entries, "sheet_id"), "sheet_id") {
            Ok(v) => v,
            Err(e) => {
                return Err(e);
            },
        };
        let worksheet = match read_opt_ref_field(get_field(entries, "worksheet"), "worksheet") {
            Ok(v) => v,
            Err(e) => {
                return Err(e);
            },
        };
        let cell = match read_cell(get_field(entries, "cell")) {
            Ok(v) => v,
            Err(e) => {
                return Err(e);
            },
        };
        let store_as = match read_text(get_field(entries, "store_as"), "store_as") {
            Ok(v) => v,
            Err(e) => {
                return Err(e);
            },
        };
        let credentials = match read_opt_text(get_field(entries, "credentials"), "credentials") {
            Ok(v) => v,
            Err(e) => {
                return Err(e);
            },
        };
        Ok(Step::GoogleSheet(GoogleSheetStep { sheet_id, worksheet, cell, store_as, credentials }))
    } else if text_is(&kind, "email") {
        let account = match read_ref_field(get_field(entries, "account"), "account") {
            Ok(v) => v,
            Err(e) => {
                return Err(e);
            },
        };
        let field = match read_email_field(get_field(entries, "field")) {
            Ok(v) => v,
            Err(e) => {
                return Err(e);
            },
        };
        let regex = match read_ref_field(get_field(entries, "regex"), "regex") {
            Ok(v) => v,
            Err(e) => {
                return Err(e);
            },
        };
        let store_as = match read_opt_text(get_field(entries, "store_as"), "store_as") {
            Ok(v) => v,
            Err(e) => {
                return Err(e);
            },
        };
        let credentials = match read_opt_text(get_field(entries, "credentials"), "credentials") {
            Ok(v) => v,
            Err(e) => {
                return Err(e);
            },
        };
        Ok(Step::Email(EmailStep { account, field, regex, store_as, credentials }))
    } else if text_is(&kind, "telegram") {
        let chat_id = match read_ref_field(get_field(entries, "chat_id"), "chat_id") {
            Ok(v) => v,
            Err(e) => {
                return Err(e);
            },
        };
        let message = match read_ref_field(get_field(entries, "message"), "message") {
            Ok(v) => v,
            Err(e) => {
                return Err(e);
            },
        };
        let credentials = match read_opt_text(get_field(entries, "credentials"), "credentials") {
            Ok(v) => v,
            Err(e) => {
                return Err(e);
            },
        };
        Ok(Step::Telegram(TelegramStep { chat_id, message, credentials }))
    } else {
        Err(crate::error::joined("unknown step type '", kind.as_str(), "'"))
    }
}

/// Reads the `steps` section; see [`steps_section`].
fn read_steps(d: Option<&Doc>) -> (r: Result<Vec<Step>, String>)
    ensures
        match steps_section(opt_doc_view(d)) {
            Ok(v) => r matches Ok(x) && x@.map_values(|s: Step| s@) == v,
            Err(e) => r matches Err(m) && m@ == e,
        },
{
    let items = match d {
        Some(Doc::List(items)) => items,
        Some(Doc::Null) => {
            let out: Vec<Step> = Vec::new();
            assert(out@.map_values(|s: Step| s@) =~= Seq::<StepView>::empty());
            return Ok(out);
        },
        Some(_) => {
            return Err(crate::error::joined("field '", "steps", "' must be a list"));
        },
        None => {
            return Err(crate::error::joined("missing field '", "steps", "'"));
        },
    };
    proof {
        lemma_list_view(items);
    }
    let ghost xs = items_view(items@);
    let mut out: Vec<Step> = Vec::new();
    let mut i: usize = 0;
    assert(xs.skip(0) == xs);
    assert(out@.map_values(|s: Step| s@) =~= Seq::<StepView>::empty());
    while i < items.len()
        invariant
            i <= items@.len(),
            xs == items_view(items@),
            steps_section(opt_doc_view(d)) == steps_from(Seq::empty(), xs),
            out@.len() == i,
            steps_from(Seq::empty(), xs) == steps_from(
                out@.map_values(|s: Step| s@),
                xs.skip(i as int),
            ),
        decreases items@.len() - i,
    {
        assert(xs.skip(i as int)[0] == xs[i as int]);
        assert(xs.skip(i as int).drop_first() == xs.skip(i + 1));
        match read_step(&items[i]) {
            Ok(step) => {
                let ghost before = out@.map_values(|s: Step| s@);
                out.push(step);
                assert(out@.map_values(|s: Step| s@) =~= before.push(step@));
            },
            Err(e) => {
                assert(out@.map_values(|s: Step| s@).len() == i);
                assert(xs[i as int] == items@[i as int]@);
                let number = crate::error::decimal_string(i as u128 + 1);
                let mut m = crate::error::joined("step ", number.as_str(), ": ");
                m.append(e.as_str());
                return Err(m);
            },
        }
        i = i + 1;
    }
    assert(xs.skip(i as int).len() == 0);
    Ok(out)
}

/// Reads the `credentials` section; see [`credentials_section`].
fn read_credentials(d: Option<&Doc>) -> (r: Result<Vec<(String, CredentialSource)>, String>)
    ensures
        match credentials_section(opt_doc_view(d)) {
            Ok(v) => r matches Ok(x) && x@.map_values(
                |c: (String, CredentialSource)| (c.0@, c.1@),
            ) == v,
            Err(e) => r matches Err(m) && m@ == e,
        },
{
    let mut out: Vec<(String, CredentialSource)> = Vec::new();
    assert(out@.map_values(|c: (String, CredentialSource)| (c.0@, c.1@)) =~= Seq::<
        (Seq<char>, SourceView),
    >::empty());
    let entries = match d {
        Some(Doc::Mapping(entries)) => entries,
        Some(Doc::Null) | None => {
            return Ok(out);
        },
        Some(_) => {
            return Err(crate::error::joined("field '", "credentials", "' must be a mapping"));
        },
    };
    proof {
        lemma_mapping_view(entries);
    }
    let ghost es = entries_view(entries@);
    let mut i: usize = 0;
    assert(es.skip(0) == es);
    while i < entries.len()
        invariant
            i <= entries@.len(),
            es == entries_view(entries@),
            credentials_section(opt_doc_view(d)) == credentials_from(Seq::empty(), es),
            credentials_from(Seq::empty(), es) == credentials_from(
                out@.map_values(|c: (String, CredentialSource)| (c.0@, c.1@)),
                es.skip(i as int),
            ),
        decreases entries@.len() - i,
    {
        assert(es.skip(i as int)[0] == es[i as int]);
        assert(es.skip(i as int).drop_first() == es.skip(i + 1));
        assert(es[i as int] == (entries@[i as int].0@, entries@[i as int].1@));
        let name = match &entries[i].0 {
            Doc::Text(name) => name,
            _ => {
                return Err(String::from_str("credential names must be strings"));
            },
        };
        let source = match &entries[i].1 {
            Doc::Mapping(fields) => {
                proof {
                    lemma_mapping_view(fields);
                }
                read_source(fields)
            },
            _ => Err(String::from_str("expected a credential definition")),
        };
        match source {
            Ok(src) => {
                let ghost before = out@.map_values(|c: (String, CredentialSource)| (c.0@, c.1@));
                out.push((name.clone(), src));
                assert(out@.map_values(|c: (String, CredentialSource)| (c.0@, c.1@))
                    =~= before.push((name@, src@)));
            },
            Err(reason) => {
                let mut m = crate::error::joined("credential '", name.as_str(), "': ");
                m.append(reason.as_str());
                return Err(m);
            },
        }
        i = i + 1;
    }
    assert(es.skip(i as int).len() == 0);
    Ok(out)
}

/// Reads the `run_every` section; see [`run_every_section`].
fn read_run_every(d: Option<&Doc>) -> (r: Result<Duration, String>)
    ensures
        match run_every_section(opt_doc_view(d)) {
            Ok(n) => r matches Ok(x) && x.secs() == n,
            Err(e) => r matches Err(m) && m@ == e,
        },
{
    let text = match read_text(d, "run_every") {
        Ok(t) => t,
        Err(e) => {
            return Err(e);
        },
    };
    match parse_duration(text.as_str()) {
        Some(v) => Ok(v),
        None => Err(String::from_str("invalid run_every value")),
    }
}

/// The recipe that a text describes, or why it describes none.
pub open spec fn config_from_text(text: Seq<char>) -> Result<ConfigView, crate::error::ErrorView> {
    match yaml_document(text) {
        Ok(d) => match config_from_doc(d) {
            Ok(c) => Ok(c),
            Err(e) => Err(crate::error::ErrorView::InvalidConfig(e)),
        },
        Err(e) => Err(crate::error::ErrorView::InvalidConfig(e)),
    }
}

impl FlowConfig {
    /// The recipe that the YAML text `contents` describes; see
    /// [`config_from_text`].
    pub fn from_yaml(contents: &str) -> (r: Result<FlowConfig, FlowError>)
        ensures
            match config_from_text(contents@) {
                Ok(c) => r matches Ok(x) && x@ == c,
                Err(e) => r matches Err(f) && f@ == e,
            },
    {
        match read_document(contents) {
            Ok(d) => FlowConfig::from_doc(&d),
            Err(e) => Err(FlowError::InvalidConfig(e)),
        }
    }

    /// The recipe that `d` describes, or `InvalidConfig` with the reason it
    /// describes none; see [`config_from_doc`].
    pub fn from_doc(d: &Doc) -> (r: Result<FlowConfig, FlowError>)
        ensures
            match config_from_doc(d@) {
                Ok(c) => r matches Ok(x) && x@ == c,
                Err(e) => r matches Err(f) && f@ == crate::error::ErrorView::InvalidConfig(e),
            },
    {
        let entries = match d {
            Doc::Mapping(entries) => entries,
            _ => {
                return Err(FlowError::InvalidConfig(String::from_str("a recipe must be a mapping")));
            },
        };
        proof {
            lemma_mapping_view(entries);
        }
        let run_every = match read_run_every(get_field(entries, "run_every")) {
            Ok(v) => v,
            Err(e) => {
                return Err(FlowError::InvalidConfig(e));
            },
        };
        let credentials = match read_credentials(get_field(entries, "credentials")) {
            Ok(v) => v,
            Err(e) => {
                return Err(FlowError::InvalidConfig(e));
            },
        };
        let steps = match read_steps(get_field(entries, "steps")) {
            Ok(v) => v,
            Err(e) => {
                return Err(FlowError::InvalidConfig(e));
            },
        };
        let cfg = FlowConfig { run_every, credentials, steps };
        assert(cfg@.run_every == run_every.secs() as nat);
        Ok(cfg)
    }
}

} // verus!
