//! Windows: the PowerShell adapter listing, asked for when `ipconfig` yields
//! no adapter, and what its JSON output means.
use vstd::prelude::*;
use crate::command::{CommandOutput, CommandSpec, command};
use crate::network::{AdapterInfo, AdapterView};
use crate::text::{chars_string, decode_lossy, utf8_lossy};
use serde_json::Value;

verus! {

/// A field of a JSON object as the listing reads it.
pub enum JsonField {
    /// The key is absent (or the value is not an object).
    Missing,
    /// A JSON string.
    Text(String),
    /// Any other JSON value.
    NotText,
}

pub enum JsonFieldView {
    Missing,
    Text(Seq<char>),
    NotText,
}

impl DeepView for JsonField {
    type V = JsonFieldView;

    open spec fn deep_view(&self) -> JsonFieldView {
        match self {
            JsonField::Missing => JsonFieldView::Missing,
            JsonField::Text(s) => JsonFieldView::Text(s@),
            JsonField::NotText => JsonFieldView::NotText,
        }
    }
}

/// The interface alias and address fields of one listed address.
pub struct PsRecord {
    pub alias: JsonField,
    pub address: JsonField,
}

pub struct PsRecordView {
    pub alias: JsonFieldView,
    pub address: JsonFieldView,
}

impl DeepView for PsRecord {
    type V = PsRecordView;

    open spec fn deep_view(&self) -> PsRecordView {
        PsRecordView { alias: self.alias.deep_view(), address: self.address.deep_view() }
    }
}

/// The shape of the JSON that `ConvertTo-Json` printed: an array of records,
/// a single record (one address), or anything else.
pub enum PsListing {
    List(Vec<PsRecord>),
    Single(PsRecord),
    Other,
}

pub enum PsListingView {
    List(Seq<PsRecordView>),
    Single(PsRecordView),
    Other,
}

impl DeepView for PsListing {
    type V = PsListingView;

    open spec fn deep_view(&self) -> PsListingView {
        match self {
            PsListing::List(v) => PsListingView::List(v.deep_view()),
            PsListing::Single(r) => PsListingView::Single(r.deep_view()),
            PsListing::Other => PsListingView::Other,
        }
    }
}

/// What `serde_json` parses out of a text, read as a listing with the two given
/// field names (`None` when the text is not JSON).
pub uninterp spec fn powershell_listing(
    text: Seq<char>,
    alias_key: Seq<char>,
    address_key: Seq<char>,
) -> Option<PsListingView>;

/// Parses JSON text with `serde_json::from_str` into a `serde_json::Value` and
/// reads, from an array's items or from a lone object, the two named fields.
#[verifier::external_body]
fn read_listing(text: &str, alias_key: &str, address_key: &str) -> (r: Option<PsListing>)
    ensures
        r.deep_view() == powershell_listing(text@, alias_key@, address_key@),
{
    let field = |v: &Value, key: &str| match v.get(key) {
        None => JsonField::Missing,
        Some(Value::String(s)) => JsonField::Text(s.clone()),
        Some(_) => JsonField::NotText,
    };
    let record = |v: &Value| PsRecord { alias: field(v, alias_key), address: field(v, address_key) };
    match serde_json::from_str::<Value>(text) {
        Ok(Value::Array(items)) => Some(PsListing::List(items.iter().map(record).collect())),
        Ok(v @ Value::Object(_)) => Some(PsListing::Single(record(&v))),
        Ok(_) => Some(PsListing::Other),
        Err(_) => None,
    }
}

/// The text of a field, or `default` when it is missing or not a string.
pub open spec fn field_text(f: JsonFieldView, default: Seq<char>) -> Seq<char> {
    match f {
        JsonFieldView::Text(s) => s,
        _ => default,
    }
}

/// The adapter a record describes; the gateway is yet to be probed.
pub open spec fn record_adapter(r: PsRecordView) -> AdapterView {
    AdapterView {
        name: field_text(r.alias, "未知网卡"@),
        ip: field_text(r.address, seq![]),
        gateway: "待探测"@,
    }
}

/// A lone object must hold both fields (reading an absent one fails).
pub open spec fn listing_readable(l: PsListingView) -> bool {
    l matches PsListingView::Single(r) ==> !(r.alias is Missing) && !(r.address is Missing)
}

/// The adapters of a listing: from an array, those records with an address; a
/// lone object always gives one.
pub open spec fn listing_adapters(l: PsListingView) -> Seq<AdapterView> {
    match l {
        PsListingView::List(rs) => rs.filter(
            |r: PsRecordView| field_text(r.address, seq![]).len() > 0,
        ).map_values(|r: PsRecordView| record_adapter(r)),
        PsListingView::Single(r) => seq![record_adapter(r)],
        PsListingView::Other => seq![],
    }
}

fn field_string(f: &JsonField, default: &str) -> (s: String)
    ensures
        s@ == field_text(f.deep_view(), default@),
{
    match f {
        JsonField::Text(t) => t.clone(),
        _ => default.to_owned(),
    }
}

fn record_to_adapter(r: &PsRecord) -> (a: AdapterInfo)
    ensures
        a@ == record_adapter(r.deep_view()),
{
    proof {
        reveal_strlit("");
    }
    let name = field_string(&r.alias, "未知网卡");
    let ip = field_string(&r.address, "");
    assert(""@ =~= Seq::<char>::empty());
    assert(ip@ == field_text(r.deep_view().address, seq![]));
    let a = AdapterInfo { name, ip, gateway: "待探测".to_owned() };
    assert(a@.name == record_adapter(r.deep_view()).name);
    a
}

/// The adapters a listing describes.
pub fn adapters_from_listing(l: &PsListing) -> (r: Vec<AdapterInfo>)
    requires
        listing_readable(l.deep_view()),
    ensures
        r.deep_view() == listing_adapters(l.deep_view()),
{
    let mut out: Vec<AdapterInfo> = Vec::new();
    match l {
        PsListing::List(items) => {
            let ghost rs = items.deep_view();
            let ghost pred = |r: PsRecordView| field_text(r.address, seq![]).len() > 0;
            let ghost f = |r: PsRecordView| record_adapter(r);
            let mut i: usize = 0;
            while i < items.len()
                invariant
                    i <= items.len(),
                    rs == items.deep_view(),
                    pred == (|r: PsRecordView| field_text(r.address, seq![]).len() > 0),
                    f == (|r: PsRecordView| record_adapter(r)),
                    out.deep_view() == rs.take(i as int).filter(pred).map_values(f),
                decreases items.len() - i,
            {
                let a = record_to_adapter(&items[i]);
                proof {
                    reveal_with_fuel(Seq::<_>::filter, 1);
                    assert(rs.take(i + 1).drop_last() =~= rs.take(i as int));
                    assert(rs[i as int] == items@[i as int].deep_view());
                }
                let ghost before = out.deep_view();
                if !a.ip.as_str().is_empty() {
                    out.push(a);
                    proof {
                        assert(out.deep_view() =~= before.push(a@));
                        assert(rs.take(i + 1).filter(pred) == rs.take(i as int).filter(pred).push(
                            rs[i as int],
                        ));
                        assert(rs.take(i + 1).filter(pred).map_values(f) =~= before.push(
                            f(rs[i as int]),
                        ));
                    }
                }
                i = i + 1;
            }
            assert(rs.take(items.len() as int) =~= rs);
            out
        },
        PsListing::Single(rec) => {
            let a = record_to_adapter(rec);
            out.push(a);
            assert(out.deep_view() =~= seq![a@]);
            out
        },
        PsListing::Other => {
            assert(out.deep_view() =~= Seq::<AdapterView>::empty());
            out
        },
    }
}

/// Whether the PowerShell listing is to be asked for: exactly when `ipconfig`
/// yielded no adapter.
pub fn fallback_needed(ipconfig_adapters: &Vec<AdapterInfo>) -> (b: bool)
    ensures
        b == (ipconfig_adapters.len() == 0),
{
    ipconfig_adapters.len() == 0
}

/// The PowerShell query: IPv4 addresses other than well-known ones, with their
/// interface alias, as JSON.
pub open spec fn listing_script() -> Seq<char> {
    "Get-NetIPAddress -AddressFamily IPv4 | Where-Object { $_.PrefixOrigin -ne 'WellKnown' } | Select-Object InterfaceAlias, IPAddress | ConvertTo-Json"@
}

/// `powershell -Command <listing query>`.
pub fn powershell_adapters_command() -> (c: CommandSpec)
    ensures
        c.program@ == "powershell"@,
        c.args.deep_view() == seq!["-Command"@, listing_script()],
{
    let c = command(
        "powershell",
        &[
            "-Command",
            "Get-NetIPAddress -AddressFamily IPv4 | Where-Object { $_.PrefixOrigin -ne 'WellKnown' } | Select-Object InterfaceAlias, IPAddress | ConvertTo-Json",
        ],
    );
    assert(c.args.deep_view() =~= seq!["-Command"@, listing_script()]);
    c
}

/// The listing read from PowerShell output.
pub open spec fn output_listing(o: CommandOutput) -> Option<PsListingView> {
    powershell_listing(utf8_lossy(o.stdout@), "InterfaceAlias"@, "IPAddress"@)
}

/// The adapters that the PowerShell listing reports: none when it could not run
/// or printed no JSON; `None` when it printed a lone object that lacks one of
/// the two fields, which cannot be read.
pub fn get_all_adapters_fallback(output: Result<CommandOutput, String>) -> (r: Option<
    Vec<AdapterInfo>,
>)
    ensures
        r is None <==> (output matches Ok(o) && output_listing(o) matches Some(l)
            && !listing_readable(l)),
        r matches Some(v) ==> v.deep_view() == match output {
            Ok(o) => match output_listing(o) {
                Some(l) => listing_adapters(l),
                None => Seq::<AdapterView>::empty(),
            },
            Err(_) => Seq::<AdapterView>::empty(),
        },
{
    let empty: Vec<AdapterInfo> = Vec::new();
    assert(empty.deep_view() =~= Seq::<AdapterView>::empty());
    match output {
        Err(_) => Some(empty),
        Ok(o) => {
            let chars = decode_lossy(o.stdout.as_slice());
            let text = chars_string(chars.as_slice());
            match read_listing(text.as_str(), "InterfaceAlias", "IPAddress") {
                None => Some(empty),
                Some(l) => {
                    let readable = match &l {
                        PsListing::Single(rec) => !matches!(rec.alias, JsonField::Missing)
                            && !matches!(rec.address, JsonField::Missing),
                        _ => true,
                    };
                    if readable {
                        Some(adapters_from_listing(&l))
                    } else {
                        None
                    }
                },
            }
        },
    }
}

} // verus!
