//! Turning a request into the files of a loadable archive: a fixed module
//! descriptor, a generated bootstrap script, and the user's scripts.
use vstd::prelude::*;
use vstd::string::StringExecFns;
use vstd::utf8::encode_utf8;
use crate::message::{CompareRequest, Request};
use crate::worker::item_ids;

verus! {

/// The decimal digit characters, by value.
pub open spec fn digit_chars() -> Seq<char> {
    seq!['0', '1', '2', '3', '4', '5', '6', '7', '8', '9']
}

/// The decimal representation of `n`, without leading zeros.
pub open spec fn decimal(n: nat) -> Seq<char>
    decreases n,
{
    if n < 10 {
        seq![digit_chars()[n as int]]
    } else {
        decimal(n / 10) + seq![digit_chars()[(n % 10) as int]]
    }
}

fn digit_str(d: u16) -> (r: &'static str)
    requires
        d < 10,
    ensures
        r@ == seq![digit_chars()[d as int]],
{
    proof {
        reveal_strlit("0");
        reveal_strlit("1");
        reveal_strlit("2");
        reveal_strlit("3");
        reveal_strlit("4");
        reveal_strlit("5");
        reveal_strlit("6");
        reveal_strlit("7");
        reveal_strlit("8");
        reveal_strlit("9");
    }
    let r = match d {
        0 => "0",
        1 => "1",
        2 => "2",
        3 => "3",
        4 => "4",
        5 => "5",
        6 => "6",
        7 => "7",
        8 => "8",
        _ => "9",
    };
    assert(r@ =~= seq![digit_chars()[d as int]]);
    r
}

/// Appends the decimal representation of `n` to `out`.
pub fn push_decimal(out: &mut String, n: u16)
    ensures
        final(out)@ == old(out)@ + decimal(n as nat),
    decreases n,
{
    if n >= 10 {
        push_decimal(out, n / 10);
    }
    out.append(digit_str(n % 10));
    assert(final(out)@ =~= old(out)@ + decimal(n as nat));
}

/// The text between two ids in the generated list of script names.
pub open spec fn id_separator() -> Seq<char> {
    "\", \""@
}

/// The ids in decimal, separated by `id_separator()`.
pub open spec fn joined_ids(ids: Seq<u16>) -> Seq<char>
    decreases ids.len(),
{
    if ids.len() == 0 {
        Seq::empty()
    } else if ids.len() == 1 {
        decimal(ids[0] as nat)
    } else {
        joined_ids(ids.drop_last()) + id_separator() + decimal(ids.last() as nat)
    }
}

/// Appends the ids in decimal, separated by `id_separator()`, to `out`.
pub fn push_joined_ids(out: &mut String, ids: &[u16])
    ensures
        final(out)@ == old(out)@ + joined_ids(ids@),
{
    let ghost start = out@;
    let mut i: usize = 0;
    while i < ids.len()
        invariant
            i <= ids@.len(),
            out@ == start + joined_ids(ids@.subrange(0, i as int)),
        decreases ids@.len() - i,
    {
        let ghost before = out@;
        if i > 0 {
            out.append("\", \"");
        }
        push_decimal(out, ids[i]);
        i = i + 1;
        proof {
            let s = ids@.subrange(0, i as int);
            assert(s.drop_last() =~= ids@.subrange(0, i - 1));
            assert(out@ =~= start + joined_ids(s));
        }
    }
    assert(ids@.subrange(0, i as int) =~= ids@);
}


/// The module descriptor (`config.cpp`): metadata only, naming the bootstrap
/// script to run when the module loads.
pub open spec fn descriptor_text() -> Seq<char> {
    r#"
    class CfgPatches {
        class TAB {
            units[] = {};
            weapons[] = {};
            requiredVersion = 1.0;
            requiredAddons[] = {};
        };
    };

    class CfgFunctions {
        class TAB {
            class Bench {
                class Bootstrap {
                    file = "\tab\bootstrap.sqf";
                    preStart = 1;
                };
            };
        };
    };"#@
}

/// The module descriptor (`config.cpp`).
pub fn descriptor() -> (r: String)
    ensures
        r@ == descriptor_text(),
{
    String::from_str(r#"
    class CfgPatches {
        class TAB {
            units[] = {};
            weapons[] = {};
            requiredVersion = 1.0;
            requiredAddons[] = {};
        };
    };

    class CfgFunctions {
        class TAB {
            class Bench {
                class Bootstrap {
                    file = "\tab\bootstrap.sqf";
                    preStart = 1;
                };
            };
        };
    };"#)
}

/// The bootstrap script of an execute job `id`: a 30-second watchdog, then
/// one timed run of `bench.sqf`, whose timing and value go to the callback,
/// then the call that ends the process.
pub open spec fn execute_bootstrap_text(id: Seq<char>) -> Seq<char> {
    r#"
            diag_log "creating timeout";
            "tab" callExtension ["timeout", [""#@ + id + r#"", 30]];
            diag_log "starting benchmark";
            private _code = compile preprocessFileLineNumbers "\tab\bench.sqf";
            private _out = diag_codePerformance [_code];
            private _ret = call _code;
            diag_log "benchmark complete, saving results";
            "tab" callExtension ["execute", [""#@ + id + r#"", _out, _ret]];
            diag_log "dying";
            "tab" callExtension ["die", []];
            "#@
}

/// The bootstrap script of an execute job `id`.
pub fn execute_bootstrap(id: &str) -> (r: String)
    ensures
        r@ == execute_bootstrap_text(id@),
{
    let mut r = String::from_str(r#"
            diag_log "creating timeout";
            "tab" callExtension ["timeout", [""#);
    r.append(id);
    r.append(r#"", 30]];
            diag_log "starting benchmark";
            private _code = compile preprocessFileLineNumbers "\tab\bench.sqf";
            private _out = diag_codePerformance [_code];
            private _ret = call _code;
            diag_log "benchmark complete, saving results";
            "tab" callExtension ["execute", [""#);
    r.append(id);
    r.append(r#"", _out, _ret]];
            diag_log "dying";
            "tab" callExtension ["die", []];
            "#);
    r
}

/// The bootstrap script of a compare job `id` over the scripts `ids`: a
/// 120-second watchdog, then a loop that compiles, times and runs each
/// script in order and collects its id, timing and value, then hands the
/// collection to the callback and ends the process.
pub open spec fn compare_bootstrap_text(id: Seq<char>, ids: Seq<u16>) -> Seq<char> {
    r#"
            diag_log "creating timeout";
            "tab" callExtension ["timeout", [""#@ + id + r#"", 120]];
            diag_log "starting benchmark";
            private _out = [];
            {
                private _code = compileScript [format["\tab\%1.sqf", _x]];
                private _ret = [_x];
                diag_log format["benchmarking %1", _x];
                _ret pushBack diag_codePerformance [_code];
                _ret pushBack call _code;
                _out pushBack _ret;
            } forEach [""#@ + joined_ids(ids) + r#""];
            diag_log "benchmark complete, saving results";
            "tab" callExtension ["compare", [""#@ + id + r#"", _out]];
            diag_log "dying";
            "tab" callExtension ["die", []];
            "#@
}

/// The bootstrap script of a compare job `id` over the scripts `ids`.
pub fn compare_bootstrap(id: &str, ids: &[u16]) -> (r: String)
    ensures
        r@ == compare_bootstrap_text(id@, ids@),
{
    let mut r = String::from_str(r#"
            diag_log "creating timeout";
            "tab" callExtension ["timeout", [""#);
    r.append(id);
    r.append(r#"", 120]];
            diag_log "starting benchmark";
            private _out = [];
            {
                private _code = compileScript [format["\tab\%1.sqf", _x]];
                private _ret = [_x];
                diag_log format["benchmarking %1", _x];
                _ret pushBack diag_codePerformance [_code];
                _ret pushBack call _code;
                _out pushBack _ret;
            } forEach [""#);
    push_joined_ids(&mut r, ids);
    r.append(r#""];
            diag_log "benchmark complete, saving results";
            "tab" callExtension ["compare", [""#);
    r.append(id);
    r.append(r#"", _out]];
            diag_log "dying";
            "tab" callExtension ["die", []];
            "#);
    r
}

/// The name of a compared script's file inside the archive: its id, then
/// `.sqfc` for bytecode or `.sqf` for source.
pub open spec fn item_file_name_text(id: u16, sqfc: bool) -> Seq<char> {
    decimal(id as nat) + if sqfc {
        ".sqfc"@
    } else {
        ".sqf"@
    }
}

/// The name of a compared script's file inside the archive.
pub fn item_file_name(item: &CompareRequest) -> (r: String)
    ensures
        r@ == item_file_name_text(item.id, item.sqfc),
{
    let mut r = String::new();
    push_decimal(&mut r, item.id);
    if item.sqfc {
        r.append(".sqfc");
    } else {
        r.append(".sqf");
    }
    r
}


/// A file name made only of digits, lower-case ASCII letters and dots: one
/// that lower-casing leaves as it is, and that holds no path separator.
pub open spec fn plain_name(k: Seq<char>) -> bool {
    forall|i: int|
        0 <= i < k.len() ==> ('0' <= #[trigger] k[i] <= '9' || 'a' <= k[i] <= 'z' || k[i] == '.')
}

/// A lower-case hexadecimal digit.
pub open spec fn is_hex_digit(c: char) -> bool {
    ('0' <= c <= '9') || ('a' <= c <= 'f')
}

/// The hyphenated lower-case text of a version-4 UUID: 36 characters,
/// dashes at positions 8, 13, 18 and 23, hex digits elsewhere, and the
/// version digit `4` at position 14.
pub open spec fn is_v4_uuid_text(t: Seq<char>) -> bool {
    &&& t.len() == 36
    &&& forall|i: int|
        0 <= i < 36 ==> if i == 8 || i == 13 || i == 18 || i == 23 {
            #[trigger] t[i] == '-'
        } else {
            is_hex_digit(t[i])
        }
    &&& t[14] == '4'
}

/// An archive being assembled in memory: named files and header properties,
/// held in hemtt_pbo's `WritablePbo`.
#[verifier::external_body]
pub struct Pbo {
    inner: hemtt_pbo::WritablePbo<std::io::Cursor<Vec<u8>>>,
}

/// hemtt_pbo's error, carried out of the archive calls and reported as text.
#[verifier::external_type_specification]
#[verifier::external_body]
pub struct ExPboError(hemtt_pbo::Error);

/// The files held by an archive being assembled, by name.
pub uninterp spec fn pbo_files(p: Pbo) -> Map<Seq<char>, Seq<u8>>;

/// The header properties of an archive being assembled, in insertion order.
pub uninterp spec fn pbo_properties(p: Pbo) -> Seq<(Seq<char>, Seq<char>)>;

/// The bytes of the archive format for these properties and files.
pub uninterp spec fn pbo_encoding(properties: Seq<(Seq<char>, Seq<char>)>, files: Map<Seq<char>, Seq<u8>>) -> Seq<u8>;

/// Relies on hemtt_pbo::WritablePbo::new: an archive with no files and no
/// properties.
#[verifier::external_body]
fn pbo_new() -> (r: Pbo)
    ensures
        pbo_files(r).dom().is_empty(),
        pbo_properties(r).len() == 0,
{
    Pbo { inner: hemtt_pbo::WritablePbo::new() }
}

/// Relies on hemtt_pbo::WritablePbo::add_property: a new key is appended
/// with its value, which is kept as it is when it holds no backslash.
#[verifier::external_body]
fn pbo_add_property(p: &mut Pbo, key: &str, value: &str)
    requires
        forall|i: int| 0 <= i < pbo_properties(*old(p)).len() ==> #[trigger] pbo_properties(*old(p))[i].0 != key@,
        !value@.contains('\\'),
    ensures
        pbo_properties(*final(p)) == pbo_properties(*old(p)).push((key@, value@)),
        pbo_files(*final(p)) == pbo_files(*old(p)),
{
    p.inner.add_property(key, value);
}

/// Relies on hemtt_pbo::WritablePbo::add_file: the file is stored under its
/// name (a name without `/` is kept as it is), replacing any file of that
/// name; it fails only on contents over `u32::MAX` bytes, and then adds
/// nothing.
#[verifier::external_body]
fn pbo_add_file(p: &mut Pbo, name: &str, data: Vec<u8>) -> (r: Result<(), hemtt_pbo::Error>)
    requires
        !name@.contains('/'),
    ensures
        r is Ok <==> data@.len() <= u32::MAX,
        r is Ok ==> pbo_files(*final(p)) == pbo_files(*old(p)).insert(name@, data@),
        r is Err ==> pbo_files(*final(p)) == pbo_files(*old(p)),
        pbo_properties(*final(p)) == pbo_properties(*old(p)),
{
    match p.inner.add_file(name, std::io::Cursor::new(data)) {
        Ok(_) => Ok(()),
        Err(e) => Err(e),
    }
}

/// Relies on hemtt_pbo::WritablePbo::write, with properties, into memory:
/// writing to in-memory buffers cannot fail. Files are written in the order of their lower-cased names, which is a
/// function of the names when lower-casing changes none of them.
#[verifier::external_body]
fn pbo_write(p: &mut Pbo) -> (r: Result<Vec<u8>, hemtt_pbo::Error>)
    requires
        forall|k: Seq<char>| pbo_files(*old(p)).contains_key(k) ==> plain_name(k),
    ensures
        r is Ok,
        r is Ok ==> r->Ok_0@ == pbo_encoding(pbo_properties(*old(p)), pbo_files(*old(p))),
{
    let mut out: Vec<u8> = Vec::new();
    match p.inner.write(&mut out, true) {
        Ok(()) => Ok(out),
        Err(e) => Err(e),
    }
}

/// Relies on uuid::Uuid::new_v4 and its `Display`: a random version-4 UUID
/// in hyphenated lower-case form.
#[verifier::external_body]
fn fresh_uuid() -> (r: String)
    ensures
        is_v4_uuid_text(r@),
{
    uuid::Uuid::new_v4().to_string()
}

/// A fresh job identifier: the text of a random version-4 UUID.
pub fn new_job_id() -> (r: String)
    ensures
        is_v4_uuid_text(r@),
{
    fresh_uuid()
}


/// The header properties of every archive: the module prefix `tab`.
pub open spec fn archive_properties() -> Seq<(Seq<char>, Seq<char>)> {
    seq![("prefix"@, "tab"@)]
}

/// The descriptor, then each compared script under its file name, in order.
pub open spec fn compare_item_files(items: Seq<CompareRequest>) -> Map<Seq<char>, Seq<u8>>
    decreases items.len(),
{
    if items.len() == 0 {
        Map::empty().insert("config.cpp"@, encode_utf8(descriptor_text()))
    } else {
        compare_item_files(items.drop_last()).insert(
            item_file_name_text(items.last().id, items.last().sqfc),
            items.last().content@,
        )
    }
}

/// Whether the contents fit the archive format's 32-bit size field.
pub open spec fn fits(b: Seq<u8>) -> bool {
    b.len() <= u32::MAX
}

/// Whether every file added for `request` as job `id` fits the format.
pub open spec fn archive_fits(request: Request, id: Seq<char>) -> bool {
    &&& fits(encode_utf8(descriptor_text()))
    &&& match request {
        Request::Execute(content) => fits(encode_utf8(execute_bootstrap_text(id))) && fits(
            encode_utf8(content@),
        ),
        Request::Compare(items) => (forall|i: int|
            0 <= i < items@.len() ==> fits(#[trigger] items@[i].content@)) && fits(
            encode_utf8(compare_bootstrap_text(id, item_ids(items@))),
        ),
    }
}

/// The files of the archive for `request` as job `id`.
pub open spec fn archive_files(request: Request, id: Seq<char>) -> Map<Seq<char>, Seq<u8>> {
    match request {
        Request::Execute(content) => Map::empty().insert(
            "config.cpp"@,
            encode_utf8(descriptor_text()),
        ).insert("bootstrap.sqf"@, encode_utf8(execute_bootstrap_text(id))).insert(
            "bench.sqf"@,
            encode_utf8(content@),
        ),
        Request::Compare(items) => compare_item_files(items@).insert(
            "bootstrap.sqf"@,
            encode_utf8(compare_bootstrap_text(id, item_ids(items@))),
        ),
    }
}

proof fn lemma_decimal_plain(n: nat)
    ensures
        plain_name(decimal(n)),
    decreases n,
{
    let d = digit_chars();
    assert(forall|i: int| 0 <= i < 10 ==> '0' <= #[trigger] d[i] <= '9');
    if n >= 10 {
        lemma_decimal_plain(n / 10);
    }
}

proof fn lemma_item_name_plain(id: u16, sqfc: bool)
    ensures
        plain_name(item_file_name_text(id, sqfc)),
{
    lemma_decimal_plain(id as nat);
    reveal_strlit(".sqf");
    reveal_strlit(".sqfc");
    let t = item_file_name_text(id, sqfc);
    let dec = decimal(id as nat);
    assert forall|i: int| 0 <= i < t.len() implies ('0' <= #[trigger] t[i] <= '9' || 'a' <= t[i]
        <= 'z' || t[i] == '.') by {
        if i < dec.len() {
            assert(t[i] == dec[i]);
        }
    }
}

proof fn lemma_fixed_names_plain()
    ensures
        plain_name("config.cpp"@),
        plain_name("bootstrap.sqf"@),
        plain_name("bench.sqf"@),
{
    reveal_strlit("config.cpp");
    reveal_strlit("bootstrap.sqf");
    reveal_strlit("bench.sqf");
}

proof fn lemma_compare_files_plain(items: Seq<CompareRequest>)
    ensures
        forall|k: Seq<char>| compare_item_files(items).contains_key(k) ==> plain_name(k),
    decreases items.len(),
{
    lemma_fixed_names_plain();
    if items.len() > 0 {
        lemma_compare_files_plain(items.drop_last());
        lemma_item_name_plain(items.last().id, items.last().sqfc);
    }
}

proof fn lemma_plain_no_slash(k: Seq<char>)
    requires
        plain_name(k),
    ensures
        !k.contains('/'),
{
}

/// The UTF-8 bytes of `s`.
pub fn utf8_bytes(s: &str) -> (r: Vec<u8>)
    ensures
        r@ == encode_utf8(s@),
{
    let b = s.as_bytes();
    let mut r: Vec<u8> = Vec::new();
    let mut i: usize = 0;
    while i < b.len()
        invariant
            i <= b@.len(),
            b@ == encode_utf8(s@),
            r@ == b@.subrange(0, i as int),
        decreases b@.len() - i,
    {
        r.push(b[i]);
        i = i + 1;
        assert(r@ =~= b@.subrange(0, i as int));
    }
    assert(r@ =~= b@);
    r
}

fn copy_bytes(b: &[u8]) -> (r: Vec<u8>)
    ensures
        r@ == b@,
{
    let mut r: Vec<u8> = Vec::new();
    let mut i: usize = 0;
    while i < b.len()
        invariant
            i <= b@.len(),
            r@ == b@.subrange(0, i as int),
        decreases b@.len() - i,
    {
        r.push(b[i]);
        i = i + 1;
        assert(r@ =~= b@.subrange(0, i as int));
    }
    assert(r@ =~= b@);
    r
}

fn add_file_or_fail(p: &mut Pbo, name: &str, data: Vec<u8>) -> (r: Result<(), String>)
    requires
        plain_name(name@),
    ensures
        r is Ok <==> data@.len() <= u32::MAX,
        r is Ok ==> pbo_files(*final(p)) == pbo_files(*old(p)).insert(name@, data@),
        pbo_properties(*final(p)) == pbo_properties(*old(p)),
{
    proof {
        lemma_plain_no_slash(name@);
    }
    match pbo_add_file(p, name, data) {
        Ok(()) => Ok(()),
        Err(e) => Err(e.to_string()),
    }
}

/// The archive for `request` as job `id`, in the archive format: the `tab`
/// prefix property, the descriptor, the bootstrap script and the user's
/// scripts. Fails exactly when a file is too large for the format.
pub fn build_archive(request: &Request, id: &str) -> (r: Result<Vec<u8>, String>)
    ensures
        r is Ok <==> archive_fits(*request, id@),
        r is Ok ==> r->Ok_0@ == pbo_encoding(archive_properties(), archive_files(*request, id@)),
{
    proof {
        lemma_fixed_names_plain();
        reveal_strlit("tab");
    }
    let mut pbo = pbo_new();
    pbo_add_property(&mut pbo, "prefix", "tab");
    assert(pbo_properties(pbo) =~= archive_properties());
    assert(pbo_files(pbo) =~= Map::<Seq<char>, Seq<u8>>::empty());
    let config = descriptor();
    add_file_or_fail(&mut pbo, "config.cpp", utf8_bytes(config.as_str()))?;
    match request {
        Request::Execute(content) => {
            let boot = execute_bootstrap(id);
            add_file_or_fail(&mut pbo, "bootstrap.sqf", utf8_bytes(boot.as_str()))?;
            add_file_or_fail(&mut pbo, "bench.sqf", utf8_bytes(content.as_str()))?;
        },
        Request::Compare(items) => {
            let mut ids: Vec<u16> = Vec::new();
            let mut i: usize = 0;
            while i < items.len()
                invariant
                    i <= items@.len(),
                    ids@ == item_ids(items@.subrange(0, i as int)),
                    pbo_properties(pbo) == archive_properties(),
                    pbo_files(pbo) == compare_item_files(items@.subrange(0, i as int)),
                    forall|k: int| 0 <= k < i ==> fits(#[trigger] items@[k].content@),
                    *request == Request::Compare(*items),
                decreases items@.len() - i,
            {
                let item = &items[i];
                let name = item_file_name(item);
                proof {
                    lemma_item_name_plain(item.id, item.sqfc);
                }
                let added = add_file_or_fail(&mut pbo, name.as_str(), copy_bytes(item.content.as_slice()));
                if added.is_err() {
                    assert(!fits(items@[i as int].content@));
                    assert(!archive_fits(*request, id@));
                    return Err(added.unwrap_err());
                }
                ids.push(item.id);
                i = i + 1;
                proof {
                    let s = items@.subrange(0, i as int);
                    assert(s.drop_last() =~= items@.subrange(0, i - 1));
                    assert(item_ids(s) =~= item_ids(items@.subrange(0, i - 1)).push(item.id));
                }
            }
            assert(items@.subrange(0, i as int) =~= items@);
            let boot = compare_bootstrap(id, ids.as_slice());
            add_file_or_fail(&mut pbo, "bootstrap.sqf", utf8_bytes(boot.as_str()))?;
        },
    }
    proof {
        match request {
            Request::Execute(_) => {},
            Request::Compare(items) => {
                lemma_compare_files_plain(items@);
            },
        }
    }
    match pbo_write(&mut pbo) {
        Ok(bytes) => Ok(bytes),
        Err(e) => Err(e.to_string()),
    }
}

} // verus!
