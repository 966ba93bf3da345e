use vstd::prelude::*;
use crate::json::{JsonValue, find_member, json_document, member, parse_json_document};
use crate::text::{concat, owned};

verus! {

/// What is wrong with a member of a record: missing or not a string.
pub open spec fn member_problem(name: Seq<char>) -> Seq<char> {
    "member `"@ + name + "` is missing or not a string"@
}

/// What is wrong with a value that is neither an object nor a pair of strings.
pub open spec fn shape_problem(first: Seq<char>, second: Seq<char>) -> Seq<char> {
    "expected an object with string members `"@ + first + "` and `"@ + second + "`"@
}

/// A record of two strings read from one JSON value, as a two-field record is decoded: an
/// object whose members `first` and `second` are strings (other members are ignored), or an
/// array of exactly two strings in that order; anything else says what is wrong.
pub open spec fn two_string_record(v: JsonValue, first: Seq<char>, second: Seq<char>) -> Result<
    (Seq<char>, Seq<char>),
    Seq<char>,
> {
    match v {
        JsonValue::Object(members) => match member(members@, first) {
            Some(JsonValue::Str(a)) => match member(members@, second) {
                Some(JsonValue::Str(b)) => Ok((a@, b@)),
                _ => Err(member_problem(second)),
            },
            _ => Err(member_problem(first)),
        },
        JsonValue::Array(items) => if items@.len() == 2 && items@[0] is Str && items@[1] is Str {
            Ok((items@[0]->Str_0@, items@[1]->Str_0@))
        } else {
            Err(shape_problem(first, second))
        },
        _ => Err(shape_problem(first, second)),
    }
}

/// The text of a string value.
fn text_of(v: &JsonValue) -> (r: Option<String>)
    ensures
        match *v {
            JsonValue::Str(s) => r matches Some(t) && t@ == s@,
            _ => r is None,
        },
{
    match v {
        JsonValue::Str(s) => Some(s.clone()),
        _ => None,
    }
}

/// Reads a two-string record from a JSON value (see `two_string_record`).
pub fn decode_two_string_record(v: &JsonValue, first: &str, second: &str) -> (r: Result<(String, String), String>)
    ensures
        match two_string_record(*v, first@, second@) {
            Ok((a, b)) => r matches Ok((x, y)) && x@ == a && y@ == b,
            Err(m) => r matches Err(e) && e@ == m,
        },
{
    let shape = {
        let p = concat("expected an object with string members `", first);
        let q = concat(p.as_str(), "` and `");
        let t = concat(q.as_str(), second);
        concat(t.as_str(), "`")
    };
    match v {
        JsonValue::Object(members) => {
            let a = match find_member(members, first) {
                Some(x) => text_of(x),
                None => None,
            };
            let a = match a {
                Some(a) => a,
                None => {
                    let p = concat("member `", first);
                    return Err(concat(p.as_str(), "` is missing or not a string"));
                },
            };
            let b = match find_member(members, second) {
                Some(x) => text_of(x),
                None => None,
            };
            match b {
                Some(b) => Ok((a, b)),
                None => {
                    let p = concat("member `", second);
                    Err(concat(p.as_str(), "` is missing or not a string"))
                },
            }
        },
        JsonValue::Array(items) => {
            if items.len() == 2 {
                match (text_of(&items[0]), text_of(&items[1])) {
                    (Some(a), Some(b)) => Ok((a, b)),
                    _ => Err(shape),
                }
            } else {
                Err(shape)
            }
        },
        _ => Err(shape),
    }
}

/// The `(Name, Path)` records of an array of AppsFolder records, in order, or the error of the
/// first that is not one.
pub open spec fn apps_folder_items(items: Seq<JsonValue>) -> Result<Seq<(Seq<char>, Seq<char>)>, Seq<char>>
    decreases items.len(),
{
    if items.len() == 0 {
        Ok(Seq::empty())
    } else {
        match apps_folder_items(items.drop_last()) {
            Err(m) => Err(m),
            Ok(rs) => match two_string_record(items.last(), "Name"@, "Path"@) {
                Ok(r) => Ok(rs.push(r)),
                Err(m) => Err("Invalid AppsFolder record: "@ + m),
            },
        }
    }
}

/// The `(Name, Path)` records that PowerShell's AppsFolder enumeration printed: an array of
/// records or a single record; any other document, a record that is not one, and text that is
/// not JSON each give their error.
pub open spec fn apps_folder_records_spec(doc: Result<JsonValue, Seq<char>>) -> Result<
    Seq<(Seq<char>, Seq<char>)>,
    Seq<char>,
> {
    match doc {
        Err(m) => Err("Failed to parse AppsFolder JSON: "@ + m),
        Ok(JsonValue::Array(items)) => apps_folder_items(items@),
        Ok(JsonValue::Object(members)) => match two_string_record(JsonValue::Object(members), "Name"@, "Path"@) {
            Ok(r) => Ok(seq![r]),
            Err(m) => Err("Invalid AppsFolder record: "@ + m),
        },
        Ok(_) => Err("Unexpected PowerShell JSON shape for AppsFolder enumeration"@),
    }
}

/// The records as text.
pub open spec fn pairs_view(v: Seq<(String, String)>) -> Seq<(Seq<char>, Seq<char>)> {
    v.map_values(|p: (String, String)| (p.0@, p.1@))
}

/// Reads the `(Name, Path)` records of the AppsFolder enumeration's output (see
/// `apps_folder_records_spec`).
pub fn apps_folder_records(stdout: &[u8]) -> (r: Result<Vec<(String, String)>, String>)
    ensures
        match apps_folder_records_spec(json_document(stdout@)) {
            Ok(rs) => r matches Ok(v) && pairs_view(v@) == rs,
            Err(m) => r matches Err(e) && e@ == m,
        },
{
    let doc = match parse_json_document(stdout) {
        Ok(d) => d,
        Err(e) => return Err(concat("Failed to parse AppsFolder JSON: ", e.as_str())),
    };
    match &doc {
        JsonValue::Array(items) => {
            let mut out: Vec<(String, String)> = Vec::new();
            let mut i: usize = 0;
            while i < items.len()
                invariant
                    i <= items@.len(),
                    json_document(stdout@) == Ok::<JsonValue, Seq<char>>(doc),
                    doc == JsonValue::Array(*items),
                    apps_folder_items(items@.take(i as int)) matches Ok(rs) && pairs_view(out@) == rs,
                decreases items.len() - i,
            {
                assert(items@.take(i + 1).drop_last() =~= items@.take(i as int));
                assert(items@.take(i + 1).last() == items@[i as int]);
                match decode_two_string_record(&items[i], "Name", "Path") {
                    Ok(rec) => {
                        let ghost before = out@;
                        out.push(rec);
                        assert(pairs_view(out@) =~= pairs_view(before).push((rec.0@, rec.1@)));
                    },
                    Err(m) => {
                        proof {
                            assert(apps_folder_items(items@.take(i + 1)) == Err::<Seq<(Seq<char>, Seq<char>)>, Seq<char>>(
                                "Invalid AppsFolder record: "@ + m@,
                            ));
                            lemma_apps_folder_items_error_stays(items@, (i + 1) as int);
                        }
                        return Err(concat("Invalid AppsFolder record: ", m.as_str()));
                    },
                }
                i = i + 1;
            }
            assert(items@.take(i as int) =~= items@);
            Ok(out)
        },
        JsonValue::Object(_) => match decode_two_string_record(&doc, "Name", "Path") {
            Ok(rec) => {
                let mut out: Vec<(String, String)> = Vec::new();
                out.push(rec);
                assert(pairs_view(out@) =~= seq![(rec.0@, rec.1@)]);
                Ok(out)
            },
            Err(m) => Err(concat("Invalid AppsFolder record: ", m.as_str())),
        },
        _ => Err(owned("Unexpected PowerShell JSON shape for AppsFolder enumeration")),
    }
}

/// Once a prefix of the records fails, every longer prefix fails with the same error.
proof fn lemma_apps_folder_items_error_stays(items: Seq<JsonValue>, n: int)
    requires
        0 < n <= items.len(),
        apps_folder_items(items.take(n)) is Err,
    ensures
        apps_folder_items(items) == apps_folder_items(items.take(n)),
    decreases items.len() - n,
{
    if n < items.len() {
        assert(items.take(n + 1).drop_last() =~= items.take(n));
        lemma_apps_folder_items_error_stays(items, n + 1);
    } else {
        assert(items.take(n) =~= items);
    }
}

/// The `(PackageFamilyName, InstallLocation)` record that `Get-AppxPackage` printed for the
/// application `aumid`: a single record or the first of an array (an empty array means the
/// package was not found); any other document, a record that is not one, and text that is not
/// JSON each give their error.
pub open spec fn appx_record_spec(doc: Result<JsonValue, Seq<char>>, aumid: Seq<char>) -> Result<
    (Seq<char>, Seq<char>),
    Seq<char>,
> {
    let record = |v: JsonValue|
        match two_string_record(v, "PackageFamilyName"@, "InstallLocation"@) {
            Ok(r) => Ok(r),
            Err(m) => Err("Invalid AppX package record: "@ + m),
        };
    match doc {
        Err(m) => Err("Failed to parse AppX package JSON: "@ + m),
        Ok(JsonValue::Array(items)) => if items@.len() == 0 {
            Err("Package metadata not found for "@ + aumid)
        } else {
            record(items@[0])
        },
        Ok(JsonValue::Object(members)) => record(JsonValue::Object(members)),
        Ok(_) => Err("Unexpected PowerShell JSON shape for Get-AppxPackage"@),
    }
}

/// Reads the package record of `Get-AppxPackage`'s output (see `appx_record_spec`).
pub fn appx_package_record(stdout: &[u8], aumid: &str) -> (r: Result<(String, String), String>)
    ensures
        match appx_record_spec(json_document(stdout@), aumid@) {
            Ok((a, b)) => r matches Ok((x, y)) && x@ == a && y@ == b,
            Err(m) => r matches Err(e) && e@ == m,
        },
{
    let doc = match parse_json_document(stdout) {
        Ok(d) => d,
        Err(e) => return Err(concat("Failed to parse AppX package JSON: ", e.as_str())),
    };
    let decoded = match &doc {
        JsonValue::Array(items) => {
            if items.len() == 0 {
                return Err(concat("Package metadata not found for ", aumid));
            }
            decode_two_string_record(&items[0], "PackageFamilyName", "InstallLocation")
        },
        JsonValue::Object(_) => decode_two_string_record(&doc, "PackageFamilyName", "InstallLocation"),
        _ => return Err(owned("Unexpected PowerShell JSON shape for Get-AppxPackage")),
    };
    match decoded {
        Ok(rec) => Ok(rec),
        Err(m) => Err(concat("Invalid AppX package record: ", m.as_str())),
    }
}

} // verus!
