//! Writing a recipe back into a structured document, which reads back as the
//! same recipe.

use vstd::prelude::*;
use crate::doc::{Doc, DocView};
use crate::duration::{digits_value, duration_seconds, digit_run, is_digit, unit_seconds};
use crate::error::{decimal, digit_char};
use crate::parse::{
    add_field, cell_field, config_from_doc, credential_from, credentials_from, entries_view,
    field, fields_from, items_view, keys_view, lemma_list_view, lemma_mapping_view, no_fields,
    number_u32, opt_ref_field, ref_from_doc, run_every_section, step_from_doc, steps_from,
    value_fields, values_view, zip_entries, Fields,
};
use crate::protocol::{CellRef, EmailField};
use crate::recipe::{
    ConfigView, CredentialSource, FlowConfig, RefView, SourceView, Step, StepView, ValueRef,
};
use crate::error::decimal_string;
use crate::text::{trim_back, trim_front, trimmed, white_space};

verus! {

/// The mapping node with the given entries, in order.
pub open spec fn mapping_of(es: Seq<(DocView, DocView)>) -> DocView {
    DocView::Mapping(Seq::new(es.len(), |i: int| es[i].0), Seq::new(es.len(), |i: int| es[i].1))
}

/// The entry `key: value`.
pub open spec fn entry(key: Seq<char>, value: DocView) -> (DocView, DocView) {
    (DocView::Text(key), value)
}

/// A string, or null for none.
pub open spec fn opt_text_doc(o: Option<Seq<char>>) -> DocView {
    match o {
        Some(s) => DocView::Text(s),
        None => DocView::Null,
    }
}

/// A value reference: a literal as a bare string, the others as a one-entry map.
pub open spec fn ref_doc(r: RefView) -> DocView {
    match r {
        RefView::Literal(t) => DocView::Text(t),
        RefView::Env(n) => mapping_of(seq![entry("env"@, DocView::Text(n))]),
        RefView::Credential(n) => mapping_of(seq![entry("credential"@, DocView::Text(n))]),
        RefView::Variable(n) => mapping_of(seq![entry("var"@, DocView::Text(n))]),
    }
}

/// An optional value reference, or null for none.
pub open spec fn opt_ref_doc(o: Option<RefView>) -> DocView {
    match o {
        Some(r) => ref_doc(r),
        None => DocView::Null,
    }
}

/// A credential source as a one-entry map.
pub open spec fn source_doc(s: SourceView) -> DocView {
    match s {
        SourceView::Value(v) => mapping_of(seq![entry("value"@, DocView::Text(v))]),
        SourceView::EnvVar(n) => mapping_of(seq![entry("env"@, DocView::Text(n))]),
    }
}

/// The name of an email field.
pub open spec fn email_field_name(f: EmailField) -> Seq<char> {
    match f {
        EmailField::Subject => "subject"@,
        EmailField::Sender => "sender"@,
        EmailField::Recipient => "recipient"@,
    }
}

/// A cell position as a map of two numbers.
pub open spec fn cell_doc(c: CellRef) -> DocView {
    mapping_of(
        seq![
            entry("row"@, DocView::Number(decimal(c.row as nat))),
            entry("column"@, DocView::Number(decimal(c.column as nat))),
        ],
    )
}

/// A step as a map whose `type` names its shape.
pub open spec fn step_doc(s: StepView) -> DocView {
    match s {
        StepView::GoogleSheet { sheet_id, worksheet, cell, store_as, credentials } => mapping_of(
            seq![
                entry("type"@, DocView::Text("google_sheet"@)),
                entry("sheet_id"@, ref_doc(sheet_id)),
                entry("worksheet"@, opt_ref_doc(worksheet)),
                entry("cell"@, cell_doc(cell)),
                entry("store_as"@, DocView::Text(store_as)),
                entry("credentials"@, opt_text_doc(credentials)),
            ],
        ),
        StepView::Email { account, field, regex, store_as, credentials } => mapping_of(
            seq![
                entry("type"@, DocView::Text("email"@)),
                entry("account"@, ref_doc(account)),
                entry("field"@, DocView::Text(email_field_name(field))),
                entry("regex"@, ref_doc(regex)),
                entry("store_as"@, opt_text_doc(store_as)),
                entry("credentials"@, opt_text_doc(credentials)),
            ],
        ),
        StepView::Telegram { chat_id, message, credentials } => mapping_of(
            seq![
                entry("type"@, DocView::Text("telegram"@)),
                entry("chat_id"@, ref_doc(chat_id)),
                entry("message"@, ref_doc(message)),
                entry("credentials"@, opt_text_doc(credentials)),
            ],
        ),
    }
}

/// The credentials as a map from name to source, in order.
pub open spec fn credentials_doc(cs: Seq<(Seq<char>, SourceView)>) -> DocView {
    mapping_of(Seq::new(cs.len(), |i: int| entry(cs[i].0, source_doc(cs[i].1))))
}

/// The steps as a list.
pub open spec fn steps_doc(ss: Seq<StepView>) -> DocView {
    DocView::List(Seq::new(ss.len(), |i: int| step_doc(ss[i])))
}

/// A recipe as a document: `run_every` in seconds, then `credentials`, then
/// `steps`.
pub open spec fn config_doc(c: ConfigView) -> DocView {
    mapping_of(
        seq![
            entry("run_every"@, DocView::Text(decimal(c.run_every) + "s"@)),
            entry("credentials"@, credentials_doc(c.credentials)),
            entry("steps"@, steps_doc(c.steps)),
        ],
    )
}

proof fn lemma_zip_mapping(es: Seq<(DocView, DocView)>)
    ensures
        mapping_of(es) matches DocView::Mapping(ks, vs) && zip_entries(ks, vs) == es,
{
    let d = mapping_of(es);
    assert(zip_entries(d->Mapping_0, d->Mapping_1) =~= es);
}

proof fn lemma_decimal(n: nat)
    ensures
        decimal(n).len() > 0,
        forall|i: int| 0 <= i < decimal(n).len() ==> is_digit(#[trigger] decimal(n)[i]),
        digits_value(decimal(n)) == n,
    decreases n,
{
    let d = digit_char(n % 10);
    assert(d as nat - '0' as nat == n % 10);
    let s = decimal(n);
    if n < 10 {
        assert(s.drop_last() =~= Seq::<char>::empty());
        assert(digits_value(s) == digits_value(s.drop_last()) * 10 + (s.last() as nat
            - '0' as nat) as nat);
    } else {
        lemma_decimal(n / 10);
        assert(s.drop_last() == decimal(n / 10));
        assert(s.last() == d);
        assert(digits_value(s) == digits_value(s.drop_last()) * 10 + (s.last() as nat
            - '0' as nat) as nat);
        assert((n / 10) * 10 + n % 10 == n);
        assert forall|i: int| 0 <= i < s.len() implies is_digit(#[trigger] s[i]) by {
            if i < s.len() - 1 {
                assert(s[i] == decimal(n / 10)[i]);
            }
        }
    }
}

proof fn lemma_digit_run_all(s: Seq<char>, tail: Seq<char>)
    requires
        forall|i: int| 0 <= i < s.len() ==> is_digit(#[trigger] s[i]),
        tail.len() == 0 || !is_digit(tail[0]),
    ensures
        digit_run(s + tail) == s.len(),
    decreases s.len(),
{
    if s.len() > 0 {
        lemma_digit_run_all(s.drop_first(), tail);
        assert((s + tail).drop_first() == s.drop_first() + tail);
    } else {
        assert(s + tail == tail);
    }
}

proof fn lemma_run_every_round_trip(n: nat)
    requires
        n <= u64::MAX,
    ensures
        run_every_section(Some(DocView::Text(decimal(n) + "s"@))) == Ok::<nat, Seq<char>>(n),
{
    reveal_strlit("s");
    assert("s"@.len() == 1 && "s"@[0] == 's');
    lemma_decimal(n);
    let t = decimal(n) + "s"@;
    assert(!white_space(t[0]));
    assert(trim_front(t) == t);
    assert(t.last() == 's');
    assert(trim_back(t) == t);
    assert(trimmed(t) == t);
    lemma_digit_run_all(decimal(n), "s"@);
    let k = decimal(n).len();
    assert(t.subrange(0, k as int) == decimal(n));
    assert(t.subrange(k as int, t.len() as int) == seq!['s']);
    assert(unit_seconds(seq!['s']) == Some(1nat));
    let unit = t.subrange(k as int, t.len() as int);
    assert(!exists|i: int| 0 <= i < unit.len() && is_digit(unit[i])) by {
        assert forall|i: int| 0 <= i < unit.len() implies !is_digit(unit[i]) by {
            assert(unit[i] == 's');
        }
    }
    assert(digits_value(t.subrange(0, k as int)) == n);
    assert(digit_run(trimmed(t)) == k);
    assert(k > 0);
    assert(n * 1 == n);
    assert(duration_seconds(t) == Some(n));
}

proof fn lemma_field_at(es: Seq<(DocView, DocView)>, key: Seq<char>, k: int)
    requires
        0 <= k < es.len(),
        es[k].0 == DocView::Text(key),
        forall|j: int| 0 <= j < k ==> es[j].0 != DocView::Text(key),
    ensures
        field(es, key) == Some(es[k].1),
    decreases k,
{
    if k > 0 {
        lemma_field_at(es.drop_first(), key, k - 1);
    }
}

proof fn lemma_single_field(key: Seq<char>, v: Seq<char>)
    requires
        key == "value"@ || key == "env"@ || key == "credential"@ || key == "var"@,
    ensures
        ({
            let d = mapping_of(seq![entry(key, DocView::Text(v))]);
            &&& d matches DocView::Mapping(ks, vs)
            &&& value_fields(zip_entries(ks, vs)) == Ok::<Fields, Seq<char>>(
                if key == "value"@ {
                    Fields { value: Some(v), ..no_fields() }
                } else if key == "env"@ {
                    Fields { env: Some(v), ..no_fields() }
                } else if key == "credential"@ {
                    Fields { credential: Some(v), ..no_fields() }
                } else {
                    Fields { var: Some(v), ..no_fields() }
                },
            )
        }),
{
    reveal_strlit("value");
    assert("value"@.len() == 5 && "value"@[0] == 'v' && "value"@[1] == 'a' && "value"@[2] == 'l' && "value"@[3] == 'u' && "value"@[4] == 'e');
    reveal_strlit("env");
    assert("env"@.len() == 3 && "env"@[0] == 'e' && "env"@[1] == 'n' && "env"@[2] == 'v');
    reveal_strlit("credential");
    assert("credential"@.len() == 10 && "credential"@[0] == 'c' && "credential"@[1] == 'r' && "credential"@[2] == 'e' && "credential"@[3] == 'd' && "credential"@[4] == 'e' && "credential"@[5] == 'n' && "credential"@[6] == 't' && "credential"@[7] == 'i' && "credential"@[8] == 'a' && "credential"@[9] == 'l');
    reveal_strlit("var");
    assert("var"@.len() == 3 && "var"@[0] == 'v' && "var"@[1] == 'a' && "var"@[2] == 'r');
    let es = seq![entry(key, DocView::Text(v))];
    lemma_zip_mapping(es);
    let g = if key == "value"@ {
        Fields { value: Some(v), ..no_fields() }
    } else if key == "env"@ {
        Fields { env: Some(v), ..no_fields() }
    } else if key == "credential"@ {
        Fields { credential: Some(v), ..no_fields() }
    } else {
        Fields { var: Some(v), ..no_fields() }
    };
    assert(add_field(no_fields(), es[0]) == Ok::<Fields, Seq<char>>(g));
    assert(es.drop_first().len() == 0);
    assert(fields_from(g, es.drop_first()) == Ok::<Fields, Seq<char>>(g));
    assert(fields_from(no_fields(), es) == Ok::<Fields, Seq<char>>(g));
}

proof fn lemma_ref_round_trip(r: RefView)
    ensures
        ref_from_doc(ref_doc(r)) == Ok::<RefView, Seq<char>>(r),
{
    reveal_strlit("value");
    assert("value"@.len() == 5 && "value"@[0] == 'v' && "value"@[1] == 'a' && "value"@[2] == 'l' && "value"@[3] == 'u' && "value"@[4] == 'e');
    reveal_strlit("env");
    assert("env"@.len() == 3 && "env"@[0] == 'e' && "env"@[1] == 'n' && "env"@[2] == 'v');
    reveal_strlit("credential");
    assert("credential"@.len() == 10 && "credential"@[0] == 'c' && "credential"@[1] == 'r' && "credential"@[2] == 'e' && "credential"@[3] == 'd' && "credential"@[4] == 'e' && "credential"@[5] == 'n' && "credential"@[6] == 't' && "credential"@[7] == 'i' && "credential"@[8] == 'a' && "credential"@[9] == 'l');
    reveal_strlit("var");
    assert("var"@.len() == 3 && "var"@[0] == 'v' && "var"@[1] == 'a' && "var"@[2] == 'r');
    match r {
        RefView::Literal(_) => {},
        RefView::Env(n) => lemma_single_field("env"@, n),
        RefView::Credential(n) => lemma_single_field("credential"@, n),
        RefView::Variable(n) => lemma_single_field("var"@, n),
    }
}

proof fn lemma_source_round_trip(name: Seq<char>, src: SourceView)
    ensures
        credential_from(entry(name, source_doc(src))) == Ok::<(Seq<char>, SourceView), Seq<char>>(
            (name, src),
        ),
{
    reveal_strlit("value");
    assert("value"@.len() == 5 && "value"@[0] == 'v' && "value"@[1] == 'a' && "value"@[2] == 'l' && "value"@[3] == 'u' && "value"@[4] == 'e');
    reveal_strlit("env");
    assert("env"@.len() == 3 && "env"@[0] == 'e' && "env"@[1] == 'n' && "env"@[2] == 'v');
    reveal_strlit("credential");
    assert("credential"@.len() == 10 && "credential"@[0] == 'c' && "credential"@[1] == 'r' && "credential"@[2] == 'e' && "credential"@[3] == 'd' && "credential"@[4] == 'e' && "credential"@[5] == 'n' && "credential"@[6] == 't' && "credential"@[7] == 'i' && "credential"@[8] == 'a' && "credential"@[9] == 'l');
    reveal_strlit("var");
    assert("var"@.len() == 3 && "var"@[0] == 'v' && "var"@[1] == 'a' && "var"@[2] == 'r');
    match src {
        SourceView::Value(v) => lemma_single_field("value"@, v),
        SourceView::EnvVar(n) => lemma_single_field("env"@, n),
    }
}

proof fn lemma_u32_round_trip(n: u32)
    ensures
        number_u32(DocView::Number(decimal(n as nat))) == Some(n),
{
    lemma_decimal(n as nat);
}

proof fn lemma_cell_round_trip(c: CellRef)
    ensures
        cell_field(Some(cell_doc(c))) == Ok::<CellRef, Seq<char>>(c),
{
    reveal_strlit("row");
    assert("row"@.len() == 3 && "row"@[0] == 'r' && "row"@[1] == 'o' && "row"@[2] == 'w');
    reveal_strlit("column");
    assert("column"@.len() == 6 && "column"@[0] == 'c' && "column"@[1] == 'o' && "column"@[2] == 'l' && "column"@[3] == 'u' && "column"@[4] == 'm' && "column"@[5] == 'n');
    let es = seq![
        entry("row"@, DocView::Number(decimal(c.row as nat))),
        entry("column"@, DocView::Number(decimal(c.column as nat))),
    ];
    lemma_zip_mapping(es);
    lemma_field_at(es, "row"@, 0);
    lemma_field_at(es, "column"@, 1);
    lemma_u32_round_trip(c.row);
    lemma_u32_round_trip(c.column);
}

proof fn lemma_opt_ref_round_trip(o: Option<RefView>, key: Seq<char>)
    ensures
        opt_ref_field(Some(opt_ref_doc(o)), key) == Ok::<Option<RefView>, Seq<char>>(o),
{
    if let Some(r) = o {
        lemma_ref_round_trip(r);
        assert(ref_doc(r) != DocView::Null);
    }
}

/// A step reads back from its document as the same step.
pub proof fn lemma_step_round_trip(s: StepView)
    ensures
        step_from_doc(step_doc(s)) == Ok::<StepView, Seq<char>>(s),
{
    reveal_strlit("type");
    assert("type"@.len() == 4 && "type"@[0] == 't' && "type"@[1] == 'y' && "type"@[2] == 'p' && "type"@[3] == 'e');
    reveal_strlit("google_sheet");
    assert("google_sheet"@.len() == 12 && "google_sheet"@[0] == 'g' && "google_sheet"@[1] == 'o' && "google_sheet"@[2] == 'o' && "google_sheet"@[3] == 'g' && "google_sheet"@[4] == 'l' && "google_sheet"@[5] == 'e' && "google_sheet"@[6] == '_' && "google_sheet"@[7] == 's' && "google_sheet"@[8] == 'h' && "google_sheet"@[9] == 'e' && "google_sheet"@[10] == 'e' && "google_sheet"@[11] == 't');
    reveal_strlit("email");
    assert("email"@.len() == 5 && "email"@[0] == 'e' && "email"@[1] == 'm' && "email"@[2] == 'a' && "email"@[3] == 'i' && "email"@[4] == 'l');
    reveal_strlit("telegram");
    assert("telegram"@.len() == 8 && "telegram"@[0] == 't' && "telegram"@[1] == 'e' && "telegram"@[2] == 'l' && "telegram"@[3] == 'e' && "telegram"@[4] == 'g' && "telegram"@[5] == 'r' && "telegram"@[6] == 'a' && "telegram"@[7] == 'm');
    reveal_strlit("sheet_id");
    assert("sheet_id"@.len() == 8 && "sheet_id"@[0] == 's' && "sheet_id"@[1] == 'h' && "sheet_id"@[2] == 'e' && "sheet_id"@[3] == 'e' && "sheet_id"@[4] == 't' && "sheet_id"@[5] == '_' && "sheet_id"@[6] == 'i' && "sheet_id"@[7] == 'd');
    reveal_strlit("worksheet");
    assert("worksheet"@.len() == 9 && "worksheet"@[0] == 'w' && "worksheet"@[1] == 'o' && "worksheet"@[2] == 'r' && "worksheet"@[3] == 'k' && "worksheet"@[4] == 's' && "worksheet"@[5] == 'h' && "worksheet"@[6] == 'e' && "worksheet"@[7] == 'e' && "worksheet"@[8] == 't');
    reveal_strlit("cell");
    assert("cell"@.len() == 4 && "cell"@[0] == 'c' && "cell"@[1] == 'e' && "cell"@[2] == 'l' && "cell"@[3] == 'l');
    reveal_strlit("store_as");
    assert("store_as"@.len() == 8 && "store_as"@[0] == 's' && "store_as"@[1] == 't' && "store_as"@[2] == 'o' && "store_as"@[3] == 'r' && "store_as"@[4] == 'e' && "store_as"@[5] == '_' && "store_as"@[6] == 'a' && "store_as"@[7] == 's');
    reveal_strlit("credentials");
    assert("credentials"@.len() == 11 && "credentials"@[0] == 'c' && "credentials"@[1] == 'r' && "credentials"@[2] == 'e' && "credentials"@[3] == 'd' && "credentials"@[4] == 'e' && "credentials"@[5] == 'n' && "credentials"@[6] == 't' && "credentials"@[7] == 'i' && "credentials"@[8] == 'a' && "credentials"@[9] == 'l' && "credentials"@[10] == 's');
    reveal_strlit("account");
    assert("account"@.len() == 7 && "account"@[0] == 'a' && "account"@[1] == 'c' && "account"@[2] == 'c' && "account"@[3] == 'o' && "account"@[4] == 'u' && "account"@[5] == 'n' && "account"@[6] == 't');
    reveal_strlit("field");
    assert("field"@.len() == 5 && "field"@[0] == 'f' && "field"@[1] == 'i' && "field"@[2] == 'e' && "field"@[3] == 'l' && "field"@[4] == 'd');
    reveal_strlit("regex");
    assert("regex"@.len() == 5 && "regex"@[0] == 'r' && "regex"@[1] == 'e' && "regex"@[2] == 'g' && "regex"@[3] == 'e' && "regex"@[4] == 'x');
    reveal_strlit("chat_id");
    assert("chat_id"@.len() == 7 && "chat_id"@[0] == 'c' && "chat_id"@[1] == 'h' && "chat_id"@[2] == 'a' && "chat_id"@[3] == 't' && "chat_id"@[4] == '_' && "chat_id"@[5] == 'i' && "chat_id"@[6] == 'd');
    reveal_strlit("message");
    assert("message"@.len() == 7 && "message"@[0] == 'm' && "message"@[1] == 'e' && "message"@[2] == 's' && "message"@[3] == 's' && "message"@[4] == 'a' && "message"@[5] == 'g' && "message"@[6] == 'e');
    reveal_strlit("subject");
    assert("subject"@.len() == 7 && "subject"@[0] == 's' && "subject"@[1] == 'u' && "subject"@[2] == 'b' && "subject"@[3] == 'j' && "subject"@[4] == 'e' && "subject"@[5] == 'c' && "subject"@[6] == 't');
    reveal_strlit("sender");
    assert("sender"@.len() == 6 && "sender"@[0] == 's' && "sender"@[1] == 'e' && "sender"@[2] == 'n' && "sender"@[3] == 'd' && "sender"@[4] == 'e' && "sender"@[5] == 'r');
    reveal_strlit("recipient");
    assert("recipient"@.len() == 9 && "recipient"@[0] == 'r' && "recipient"@[1] == 'e' && "recipient"@[2] == 'c' && "recipient"@[3] == 'i' && "recipient"@[4] == 'p' && "recipient"@[5] == 'i' && "recipient"@[6] == 'e' && "recipient"@[7] == 'n' && "recipient"@[8] == 't');
    match s {
        StepView::GoogleSheet { sheet_id, worksheet, cell, store_as, credentials } => {
            let es = seq![
                entry("type"@, DocView::Text("google_sheet"@)),
                entry("sheet_id"@, ref_doc(sheet_id)),
                entry("worksheet"@, opt_ref_doc(worksheet)),
                entry("cell"@, cell_doc(cell)),
                entry("store_as"@, DocView::Text(store_as)),
                entry("credentials"@, opt_text_doc(credentials)),
            ];
            lemma_zip_mapping(es);
            lemma_field_at(es, "type"@, 0);
            lemma_field_at(es, "sheet_id"@, 1);
            lemma_field_at(es, "worksheet"@, 2);
            lemma_field_at(es, "cell"@, 3);
            lemma_field_at(es, "store_as"@, 4);
            lemma_field_at(es, "credentials"@, 5);
            lemma_ref_round_trip(sheet_id);
            lemma_opt_ref_round_trip(worksheet, "worksheet"@);
            lemma_cell_round_trip(cell);
        },
        StepView::Email { account, field: fld, regex, store_as, credentials } => {
            let es = seq![
                entry("type"@, DocView::Text("email"@)),
                entry("account"@, ref_doc(account)),
                entry("field"@, DocView::Text(email_field_name(fld))),
                entry("regex"@, ref_doc(regex)),
                entry("store_as"@, opt_text_doc(store_as)),
                entry("credentials"@, opt_text_doc(credentials)),
            ];
            lemma_zip_mapping(es);
            lemma_field_at(es, "type"@, 0);
            lemma_field_at(es, "account"@, 1);
            lemma_field_at(es, "field"@, 2);
            lemma_field_at(es, "regex"@, 3);
            lemma_field_at(es, "store_as"@, 4);
            lemma_field_at(es, "credentials"@, 5);
            lemma_ref_round_trip(account);
            lemma_ref_round_trip(regex);
        },
        StepView::Telegram { chat_id, message, credentials } => {
            let es = seq![
                entry("type"@, DocView::Text("telegram"@)),
                entry("chat_id"@, ref_doc(chat_id)),
                entry("message"@, ref_doc(message)),
                entry("credentials"@, opt_text_doc(credentials)),
            ];
            lemma_zip_mapping(es);
            lemma_field_at(es, "type"@, 0);
            lemma_field_at(es, "chat_id"@, 1);
            lemma_field_at(es, "message"@, 2);
            lemma_field_at(es, "credentials"@, 3);
            lemma_ref_round_trip(chat_id);
            lemma_ref_round_trip(message);
        },
    }
}

proof fn lemma_steps_round_trip(acc: Seq<StepView>, ss: Seq<StepView>)
    ensures
        steps_from(acc, Seq::new(ss.len(), |i: int| step_doc(ss[i]))) == Ok::<
            Seq<StepView>,
            Seq<char>,
        >(acc + ss),
    decreases ss.len(),
{
    let items = Seq::new(ss.len(), |i: int| step_doc(ss[i]));
    if ss.len() == 0 {
        assert(acc + ss =~= acc);
    } else {
        lemma_step_round_trip(ss[0]);
        let rest = ss.drop_first();
        assert(items.drop_first() =~= Seq::new(rest.len(), |i: int| step_doc(rest[i])));
        lemma_steps_round_trip(acc.push(ss[0]), rest);
        assert(acc.push(ss[0]) + rest =~= acc + ss);
    }
}

proof fn lemma_creds_round_trip(acc: Seq<(Seq<char>, SourceView)>, cs: Seq<(Seq<char>, SourceView)>)
    ensures
        credentials_from(acc, Seq::new(cs.len(), |i: int| entry(cs[i].0, source_doc(cs[i].1))))
            == Ok::<Seq<(Seq<char>, SourceView)>, Seq<char>>(acc + cs),
    decreases cs.len(),
{
    let es = Seq::new(cs.len(), |i: int| entry(cs[i].0, source_doc(cs[i].1)));
    if cs.len() == 0 {
        assert(acc + cs =~= acc);
    } else {
        lemma_source_round_trip(cs[0].0, cs[0].1);
        let rest = cs.drop_first();
        assert(es.drop_first() =~= Seq::new(
            rest.len(),
            |i: int| entry(rest[i].0, source_doc(rest[i].1)),
        ));
        lemma_creds_round_trip(acc.push(cs[0]), rest);
        assert(acc.push(cs[0]) + rest =~= acc + cs);
    }
}

/// A recipe written back into a document reads back as the same recipe: the
/// same interval, the same credentials and the same steps.
pub proof fn lemma_config_round_trip(c: ConfigView)
    requires
        c.run_every <= u64::MAX,
    ensures
        config_from_doc(config_doc(c)) == Ok::<ConfigView, Seq<char>>(c),
{
    reveal_strlit("run_every");
    assert("run_every"@.len() == 9 && "run_every"@[0] == 'r');
    reveal_strlit("credentials");
    assert("credentials"@.len() == 11 && "credentials"@[0] == 'c');
    reveal_strlit("steps");
    assert("steps"@.len() == 5 && "steps"@[0] == 's');
    let es = seq![
        entry("run_every"@, DocView::Text(decimal(c.run_every) + "s"@)),
        entry("credentials"@, credentials_doc(c.credentials)),
        entry("steps"@, steps_doc(c.steps)),
    ];
    lemma_zip_mapping(es);
    lemma_field_at(es, "run_every"@, 0);
    lemma_field_at(es, "credentials"@, 1);
    lemma_field_at(es, "steps"@, 2);
    lemma_run_every_round_trip(c.run_every);
    let ces = Seq::new(
        c.credentials.len(),
        |i: int| entry(c.credentials[i].0, source_doc(c.credentials[i].1)),
    );
    lemma_zip_mapping(ces);
    lemma_creds_round_trip(Seq::empty(), c.credentials);
    assert(Seq::<(Seq<char>, SourceView)>::empty() + c.credentials =~= c.credentials);
    lemma_steps_round_trip(Seq::empty(), c.steps);
    assert(Seq::<StepView>::empty() + c.steps =~= c.steps);
}

/// The mapping node holding `entries`.
fn mapping_node(entries: Vec<(Doc, Doc)>) -> (r: Doc)
    ensures
        r@ == mapping_of(entries_view(entries@)),
{
    proof {
        lemma_mapping_view(&entries);
        let es = entries_view(entries@);
        assert(keys_view(entries@) =~= Seq::new(es.len(), |i: int| es[i].0));
        assert(values_view(entries@) =~= Seq::new(es.len(), |i: int| es[i].1));
    }
    Doc::Mapping(entries)
}

/// Appends the entry `key: value`.
fn push_entry(entries: &mut Vec<(Doc, Doc)>, key: &str, value: Doc)
    ensures
        entries_view(final(entries)@) == entries_view(old(entries)@).push(
            entry(key@, value@),
        ),
{
    let k = Doc::Text(String::from_str(key));
    entries.push((k, value));
    assert(entries_view(final(entries)@) =~= entries_view(old(entries)@).push(entry(key@, value@)));
}

/// The text node holding a copy of `s`.
fn text_node(s: &String) -> (r: Doc)
    ensures
        r@ == DocView::Text(s@),
{
    Doc::Text(s.clone())
}

/// A one-entry map `key: s`.
fn single_node(key: &str, s: &String) -> (r: Doc)
    ensures
        r@ == mapping_of(seq![entry(key@, DocView::Text(s@))]),
{
    let mut es: Vec<(Doc, Doc)> = Vec::new();
    push_entry(&mut es, key, text_node(s));
    assert(entries_view(es@) =~= seq![entry(key@, DocView::Text(s@))]);
    mapping_node(es)
}

fn ref_node(r: &ValueRef) -> (d: Doc)
    ensures
        d@ == ref_doc(r@),
{
    match r {
        ValueRef::Literal(t) => text_node(t),
        ValueRef::Env(n) => single_node("env", n),
        ValueRef::Credential(n) => single_node("credential", n),
        ValueRef::Variable(n) => single_node("var", n),
    }
}

fn opt_ref_node(r: &Option<ValueRef>) -> (d: Doc)
    ensures
        d@ == opt_ref_doc(crate::recipe::opt_ref_view(*r)),
{
    match r {
        Some(x) => ref_node(x),
        None => Doc::Null,
    }
}

fn opt_text_node(o: &Option<String>) -> (d: Doc)
    ensures
        d@ == opt_text_doc(crate::recipe::opt_view(*o)),
{
    match o {
        Some(s) => text_node(s),
        None => Doc::Null,
    }
}

fn source_node(s: &CredentialSource) -> (d: Doc)
    ensures
        d@ == source_doc(s@),
{
    match s {
        CredentialSource::Value(v) => single_node("value", v),
        CredentialSource::EnvVar(n) => single_node("env", n),
    }
}

fn cell_node(c: CellRef) -> (d: Doc)
    ensures
        d@ == cell_doc(c),
{
    let mut es: Vec<(Doc, Doc)> = Vec::new();
    push_entry(&mut es, "row", Doc::Number(decimal_string(c.row as u128)));
    push_entry(&mut es, "column", Doc::Number(decimal_string(c.column as u128)));
    assert(entries_view(es@) =~= seq![
        entry("row"@, DocView::Number(decimal(c.row as nat))),
        entry("column"@, DocView::Number(decimal(c.column as nat))),
    ]);
    mapping_node(es)
}

fn step_node(s: &Step) -> (d: Doc)
    ensures
        d@ == step_doc(s@),
{
    let mut es: Vec<(Doc, Doc)> = Vec::new();
    match s {
        Step::GoogleSheet(g) => {
            push_entry(&mut es, "type", Doc::Text(String::from_str("google_sheet")));
            push_entry(&mut es, "sheet_id", ref_node(&g.sheet_id));
            push_entry(&mut es, "worksheet", opt_ref_node(&g.worksheet));
            push_entry(&mut es, "cell", cell_node(g.cell));
            push_entry(&mut es, "store_as", text_node(&g.store_as));
            push_entry(&mut es, "credentials", opt_text_node(&g.credentials));
        },
        Step::Email(m) => {
            let name = match m.field {
                EmailField::Subject => String::from_str("subject"),
                EmailField::Sender => String::from_str("sender"),
                EmailField::Recipient => String::from_str("recipient"),
            };
            push_entry(&mut es, "type", Doc::Text(String::from_str("email")));
            push_entry(&mut es, "account", ref_node(&m.account));
            push_entry(&mut es, "field", Doc::Text(name));
            push_entry(&mut es, "regex", ref_node(&m.regex));
            push_entry(&mut es, "store_as", opt_text_node(&m.store_as));
            push_entry(&mut es, "credentials", opt_text_node(&m.credentials));
        },
        Step::Telegram(t) => {
            push_entry(&mut es, "type", Doc::Text(String::from_str("telegram")));
            push_entry(&mut es, "chat_id", ref_node(&t.chat_id));
            push_entry(&mut es, "message", ref_node(&t.message));
            push_entry(&mut es, "credentials", opt_text_node(&t.credentials));
        },
    }
    proof {
        match s@ {
            StepView::GoogleSheet { .. } => {
                assert(entries_view(es@) =~= seq![
                    entries_view(es@)[0], entries_view(es@)[1], entries_view(es@)[2],
                    entries_view(es@)[3], entries_view(es@)[4], entries_view(es@)[5],
                ]);
            },
            StepView::Email { .. } => {
                assert(entries_view(es@) =~= seq![
                    entries_view(es@)[0], entries_view(es@)[1], entries_view(es@)[2],
                    entries_view(es@)[3], entries_view(es@)[4], entries_view(es@)[5],
                ]);
            },
            StepView::Telegram { .. } => {
                assert(entries_view(es@) =~= seq![
                    entries_view(es@)[0], entries_view(es@)[1], entries_view(es@)[2],
                    entries_view(es@)[3],
                ]);
            },
        }
    }
    mapping_node(es)
}

impl FlowConfig {
    /// The recipe as a document; it reads back as the same recipe.
    pub fn to_doc(&self) -> (r: Doc)
        ensures
            r@ == config_doc(self@),
            config_from_doc(r@) == Ok::<ConfigView, Seq<char>>(self@),
    {
        let mut creds: Vec<(Doc, Doc)> = Vec::new();
        let mut i: usize = 0;
        while i < self.credentials.len()
            invariant
                i <= self.credentials@.len(),
                entries_view(creds@) =~= Seq::new(
                    i as nat,
                    |k: int| entry(self@.credentials[k].0, source_doc(self@.credentials[k].1)),
                ),
            decreases self.credentials@.len() - i,
        {
            let (name, source) = (&self.credentials[i].0, &self.credentials[i].1);
            let key = text_node(name);
            let value = source_node(source);
            let ghost before = entries_view(creds@);
            creds.push((key, value));
            assert(entries_view(creds@) =~= before.push(
                entry(self@.credentials[i as int].0, source_doc(self@.credentials[i as int].1)),
            ));
            i = i + 1;
        }
        let mut items: Vec<Doc> = Vec::new();
        let mut j: usize = 0;
        while j < self.steps.len()
            invariant
                j <= self.steps@.len(),
                items_view(items@) =~= Seq::new(j as nat, |k: int| step_doc(self@.steps[k])),
            decreases self.steps@.len() - j,
        {
            let node = step_node(&self.steps[j]);
            let ghost before = items_view(items@);
            items.push(node);
            assert(items_view(items@) =~= before.push(step_doc(self@.steps[j as int])));
            j = j + 1;
        }
        proof {
            lemma_list_view(&items);
        }
        let mut every = decimal_string(self.run_every.as_secs() as u128);
        every.append("s");
        let mut es: Vec<(Doc, Doc)> = Vec::new();
        push_entry(&mut es, "run_every", Doc::Text(every));
        push_entry(&mut es, "credentials", mapping_node(creds));
        push_entry(&mut es, "steps", Doc::List(items));
        assert(entries_view(es@) =~= seq![
            entry("run_every"@, DocView::Text(decimal(self@.run_every) + "s"@)),
            entry("credentials"@, credentials_doc(self@.credentials)),
            entry("steps"@, steps_doc(self@.steps)),
        ]);
        proof {
            lemma_config_round_trip(self@);
        }
        mapping_node(es)
    }
}

} // verus!
