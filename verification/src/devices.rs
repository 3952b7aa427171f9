//! The device directory: parsing the bridge tool's verbose listing output
//! into structured device records.
//!
//! The listing is line oriented.  The first line is a header; every other
//! line is split on whitespace into tokens.  A line with at least two
//! tokens whose second token is exactly `device` describes an online,
//! authorized device: token 0 is its identifier, and its display name comes
//! from the first token prefixed `model:` (prefix stripped, underscores
//! turned to spaces), falling back to the identifier.  All other lines are
//! skipped silently.

use vstd::prelude::*;

use crate::config::arg_views;
use crate::text::is_ws;
use crate::text::is_ws_char;
use crate::text::string_of_chars;
use crate::text::with_detail;

verus! {

/// The argument vector of the bridge tool's verbose listing subcommand.
pub fn devices_args() -> (r: Vec<String>)
    ensures
        arg_views(r@) == seq!["devices"@, "-l"@],
{
    let mut r: Vec<String> = Vec::new();
    r.push(String::from_str("devices"));
    r.push(String::from_str("-l"));
    proof {
        assert(arg_views(r@) =~= seq!["devices"@, "-l"@]);
    }
    r
}

/// The failure text when the listing subprocess cannot be launched.
pub fn devices_error_message(detail: &str) -> (r: String)
    ensures
        r@ == "ADB çalıştırılamadı: "@ + detail@,
{
    with_detail("ADB çalıştırılamadı: ", detail)
}

/// One connected device, as the listing reports it.
#[derive(Debug, Clone)]
pub struct Device {
    pub id: String,
    pub name: String,
    pub status: String,
}

/// The mathematical content of a `Device`.
pub struct DeviceModel {
    pub id: Seq<char>,
    pub name: Seq<char>,
    pub status: Seq<char>,
}

impl View for Device {
    type V = DeviceModel;

    open spec fn view(&self) -> DeviceModel {
        DeviceModel { id: self.id@, name: self.name@, status: self.status@ }
    }
}

/// One step of whitespace tokenization: the tokens finished so far and the
/// token being read, advanced over one character.
pub open spec fn tok_step(acc: (Seq<Seq<char>>, Seq<char>), c: char) -> (Seq<Seq<char>>, Seq<
    char,
>) {
    if is_ws(c) {
        if acc.1.len() > 0 {
            (acc.0.push(acc.1), Seq::empty())
        } else {
            acc
        }
    } else {
        (acc.0, acc.1.push(c))
    }
}

pub open spec fn tok_fold(s: Seq<char>) -> (Seq<Seq<char>>, Seq<char>) {
    s.fold_left((Seq::<Seq<char>>::empty(), Seq::<char>::empty()), |acc, c| tok_step(acc, c))
}

/// The whitespace-separated tokens of `s`, as `str::split_whitespace`
/// yields them: maximal runs of non-whitespace characters, in order.
pub open spec fn tokens(s: Seq<char>) -> Seq<Seq<char>> {
    let (done, cur) = tok_fold(s);
    if cur.len() > 0 {
        done.push(cur)
    } else {
        done
    }
}

/// Drops one carriage return from the end of a line, if present.
pub open spec fn strip_cr(l: Seq<char>) -> Seq<char> {
    if l.len() > 0 && l.last() == '\r' {
        l.drop_last()
    } else {
        l
    }
}

/// One step of line splitting: the lines finished so far and the line being
/// read, advanced over one character.
pub open spec fn line_step(acc: (Seq<Seq<char>>, Seq<char>), c: char) -> (Seq<Seq<char>>, Seq<
    char,
>) {
    if c == '\n' {
        (acc.0.push(strip_cr(acc.1)), Seq::empty())
    } else {
        (acc.0, acc.1.push(c))
    }
}

pub open spec fn line_fold(s: Seq<char>) -> (Seq<Seq<char>>, Seq<char>) {
    s.fold_left((Seq::<Seq<char>>::empty(), Seq::<char>::empty()), |acc, c| line_step(acc, c))
}

/// The lines of `s`, as `str::lines` yields them: split at `\n`, a `\r`
/// before the `\n` stripped, and no empty line after a final `\n`.
pub open spec fn lines_of(s: Seq<char>) -> Seq<Seq<char>> {
    let (done, cur) = line_fold(s);
    if cur.len() > 0 {
        done.push(cur)
    } else {
        done
    }
}

/// Whether `t` carries the model field of a listing line.
pub open spec fn is_model_token(t: Seq<char>) -> bool {
    t.len() >= 6 && t.take(6) == "model:"@
}

/// The display name a model token yields: the `model:` prefix stripped and
/// underscores replaced by spaces.
pub open spec fn model_name(t: Seq<char>) -> Seq<char> {
    t.skip(6).map_values(|c: char| if c == '_' { ' ' } else { c })
}

/// The first model token of `toks` at or after index `i`, if any.
pub open spec fn find_model_from(toks: Seq<Seq<char>>, i: int) -> Option<Seq<char>>
    decreases toks.len() - i,
{
    if i < 0 || i >= toks.len() {
        None
    } else if is_model_token(toks[i]) {
        Some(toks[i])
    } else {
        find_model_from(toks, i + 1)
    }
}

/// The display name of a device line with tokens `toks`: from the first
/// model token if there is one, else the identifier (token 0).
pub open spec fn name_of(toks: Seq<Seq<char>>) -> Seq<char>
    recommends
        toks.len() >= 1,
{
    match find_model_from(toks, 0) {
        Some(t) => model_name(t),
        None => toks[0],
    }
}

/// Whether a listing line describes an online, authorized device: at least
/// two whitespace tokens, the second exactly `device`.
pub open spec fn is_device_line(l: Seq<char>) -> bool {
    tokens(l).len() >= 2 && tokens(l)[1] == "device"@
}

/// The device record a single listing line yields, if any.
pub open spec fn parse_line(l: Seq<char>) -> Option<DeviceModel> {
    let toks = tokens(l);
    if is_device_line(l) {
        Some(DeviceModel { id: toks[0], name: name_of(toks), status: toks[1] })
    } else {
        None
    }
}

/// The device records of the lines of `ls` from index `i` on, in order.
pub open spec fn devices_from(ls: Seq<Seq<char>>, i: int) -> Seq<DeviceModel>
    decreases ls.len() - i,
{
    if i < 0 || i >= ls.len() {
        Seq::empty()
    } else {
        match parse_line(ls[i]) {
            Some(d) => seq![d] + devices_from(ls, i + 1),
            None => devices_from(ls, i + 1),
        }
    }
}

/// The device records of a whole listing: every line but the first,
/// filtered to well-formed online entries, in order of appearance.
pub open spec fn parse_listing(s: Seq<char>) -> Seq<DeviceModel> {
    devices_from(lines_of(s), 1)
}

proof fn lemma_tok_fold_all_ws(s: Seq<char>)
    requires
        forall|k: int| 0 <= k < s.len() ==> is_ws(s[k]),
    ensures
        tok_fold(s) == (Seq::<Seq<char>>::empty(), Seq::<char>::empty()),
    decreases s.len(),
{
    if s.len() > 0 {
        lemma_tok_fold_all_ws(s.drop_last());
        assert(tok_fold(s) == tok_step(tok_fold(s.drop_last()), s.last()));
    }
}

/// A line of nothing but whitespace is never interpreted as a device
/// entry.
pub proof fn lemma_blank_line_no_entry(l: Seq<char>)
    requires
        forall|k: int| 0 <= k < l.len() ==> is_ws(l[k]),
    ensures
        parse_line(l) is None,
{
    lemma_tok_fold_all_ws(l);
}

/// A line whose status token is anything but `device` — or which has fewer
/// than two tokens at all — contributes no record.
pub proof fn lemma_non_device_line_excluded(l: Seq<char>)
    requires
        tokens(l).len() < 2 || tokens(l)[1] != "device"@,
    ensures
        parse_line(l) is None,
{
}

proof fn lemma_devices_from_agree(a: Seq<Seq<char>>, b: Seq<Seq<char>>, i: int)
    requires
        a.len() == b.len(),
        forall|j: int| i <= j < a.len() ==> a[j] == b[j],
    ensures
        devices_from(a, i) == devices_from(b, i),
    decreases a.len() - i,
{
    if 0 <= i < a.len() {
        lemma_devices_from_agree(a, b, i + 1);
    }
}

/// The first line is never interpreted as a device entry: two listings
/// whose lines agree after the first parse to the same records, whatever
/// their first lines hold.
pub proof fn lemma_header_ignored(s1: Seq<char>, s2: Seq<char>)
    requires
        lines_of(s1).len() == lines_of(s2).len(),
        forall|j: int| 1 <= j < lines_of(s1).len() ==> lines_of(s1)[j] == lines_of(s2)[j],
    ensures
        parse_listing(s1) == parse_listing(s2),
{
    lemma_devices_from_agree(lines_of(s1), lines_of(s2), 1);
}

proof fn lemma_devices_from_all_device_lines(ls: Seq<Seq<char>>, i: int)
    requires
        0 <= i <= ls.len(),
        forall|j: int| i <= j < ls.len() ==> is_device_line(ls[j]),
    ensures
        devices_from(ls, i).len() == ls.len() - i,
        forall|j: int|
            i <= j < ls.len() ==> devices_from(ls, i)[j - i] == parse_line(ls[j])->Some_0,
    decreases ls.len() - i,
{
    if i < ls.len() {
        lemma_devices_from_all_device_lines(ls, i + 1);
        assert(devices_from(ls, i) =~= seq![parse_line(ls[i])->Some_0] + devices_from(
            ls,
            i + 1,
        ));
    }
}

/// A listing made of a header line and well-formed online device lines
/// yields exactly one record per device line, in order, each carrying the
/// line's identifier, the status `device`, and the name the line's tokens
/// derive (from a `model:` token if one is present, else the identifier).
pub proof fn lemma_wellformed_listing(s: Seq<char>)
    requires
        lines_of(s).len() >= 1,
        forall|j: int| 1 <= j < lines_of(s).len() ==> is_device_line(lines_of(s)[j]),
    ensures
        parse_listing(s).len() == lines_of(s).len() - 1,
        forall|j: int|
            1 <= j < lines_of(s).len() ==> parse_listing(s)[j - 1] == (DeviceModel {
                id: tokens(lines_of(s)[j])[0],
                name: name_of(tokens(lines_of(s)[j])),
                status: "device"@,
            }),
{
    lemma_devices_from_all_device_lines(lines_of(s), 1);
    assert forall|j: int| 1 <= j < lines_of(s).len() implies parse_listing(s)[j - 1]
        == (DeviceModel {
        id: tokens(lines_of(s)[j])[0],
        name: name_of(tokens(lines_of(s)[j])),
        status: "device"@,
    }) by {
        assert(is_device_line(lines_of(s)[j]));
        assert(parse_listing(s)[j - 1] == parse_line(lines_of(s)[j])->Some_0);
    }
}

proof fn lemma_devices_from_status(ls: Seq<Seq<char>>, i: int)
    ensures
        forall|k: int|
            0 <= k < devices_from(ls, i).len() ==> (#[trigger] devices_from(ls, i)[k]).status
                == "device"@,
    decreases ls.len() - i,
{
    if 0 <= i < ls.len() {
        lemma_devices_from_status(ls, i + 1);
        assert forall|k: int| 0 <= k < devices_from(ls, i).len() implies (#[trigger] devices_from(
            ls,
            i,
        )[k]).status == "device"@ by {
            match parse_line(ls[i]) {
                Some(d) => {
                    assert(d.status == "device"@);
                    if k == 0 {
                        assert(devices_from(ls, i)[0] == d);
                    } else {
                        assert(devices_from(ls, i)[k] == devices_from(ls, i + 1)[k - 1]);
                        assert((devices_from(ls, i + 1)[k - 1]).status == "device"@);
                    }
                },
                None => {
                    assert(devices_from(ls, i) == devices_from(ls, i + 1));
                    assert((devices_from(ls, i + 1)[k]).status == "device"@);
                },
            }
        }
    } else {
        assert(devices_from(ls, i).len() == 0);
    }
}

/// How many lines of `ls` at or after index `i` are well-formed online
/// device lines.
pub open spec fn device_line_count(ls: Seq<Seq<char>>, i: int) -> int
    decreases ls.len() - i,
{
    if i < 0 || i >= ls.len() {
        0
    } else {
        crate::config::bit(is_device_line(ls[i])) + device_line_count(ls, i + 1)
    }
}

proof fn lemma_devices_from_count(ls: Seq<Seq<char>>, i: int)
    ensures
        devices_from(ls, i).len() == device_line_count(ls, i),
    decreases ls.len() - i,
{
    if 0 <= i < ls.len() {
        lemma_devices_from_count(ls, i + 1);
    }
}

/// A listing yields exactly one record per well-formed online device line
/// after the header, whatever else it holds: no other line adds or removes
/// a record.
pub proof fn lemma_record_count(s: Seq<char>)
    ensures
        parse_listing(s).len() == device_line_count(lines_of(s), 1),
{
    lemma_devices_from_count(lines_of(s), 1);
}

/// Every record a listing yields has status `device`: entries in any other
/// state are excluded.
pub proof fn lemma_only_online_devices(s: Seq<char>)
    ensures
        forall|k: int|
            0 <= k < parse_listing(s).len() ==> (#[trigger] parse_listing(s)[k]).status
                == "device"@,
{
    lemma_devices_from_status(lines_of(s), 1);
}

/// The whitespace tokens of `line`.
fn tokenize(line: &Vec<char>) -> (r: Vec<Vec<char>>)
    ensures
        r@.map_values(|t: Vec<char>| t@) == tokens(line@),
{
    let mut done: Vec<Vec<char>> = Vec::new();
    let mut cur: Vec<char> = Vec::new();
    let mut i: usize = 0;
    proof {
        assert(line@.take(0) =~= Seq::<char>::empty());
        assert(done@.map_values(|t: Vec<char>| t@) =~= Seq::<Seq<char>>::empty());
    }
    while i < line.len()
        invariant
            i <= line@.len(),
            (done@.map_values(|t: Vec<char>| t@), cur@) == tok_fold(line@.take(i as int)),
        decreases line@.len() - i,
    {
        let ghost pre = line@.take(i as int);
        let c = line[i];
        proof {
            assert(line@.take(i + 1).drop_last() =~= pre);
            assert(line@.take(i + 1).last() == c);
        }
        if is_ws_char(c) {
            if cur.len() > 0 {
                done.push(cur);
                cur = Vec::new();
                proof {
                    assert(done@.map_values(|t: Vec<char>| t@) =~= tok_fold(pre).0.push(
                        tok_fold(pre).1,
                    ));
                }
            }
        } else {
            cur.push(c);
        }
        i += 1;
    }
    proof {
        assert(line@.take(line@.len() as int) =~= line@);
    }
    if cur.len() > 0 {
        done.push(cur);
        proof {
            assert(done@.map_values(|t: Vec<char>| t@) =~= tok_fold(line@).0.push(
                tok_fold(line@).1,
            ));
        }
    }
    done
}

/// The lines of `text`.
fn split_lines(text: &Vec<char>) -> (r: Vec<Vec<char>>)
    ensures
        r@.map_values(|l: Vec<char>| l@) == lines_of(text@),
{
    let mut done: Vec<Vec<char>> = Vec::new();
    let mut cur: Vec<char> = Vec::new();
    let mut i: usize = 0;
    proof {
        assert(text@.take(0) =~= Seq::<char>::empty());
        assert(done@.map_values(|l: Vec<char>| l@) =~= Seq::<Seq<char>>::empty());
    }
    while i < text.len()
        invariant
            i <= text@.len(),
            (done@.map_values(|l: Vec<char>| l@), cur@) == line_fold(text@.take(i as int)),
        decreases text@.len() - i,
    {
        let ghost pre = text@.take(i as int);
        let c = text[i];
        proof {
            assert(text@.take(i + 1).drop_last() =~= pre);
            assert(text@.take(i + 1).last() == c);
        }
        if c == '\n' {
            if cur.len() > 0 && cur[cur.len() - 1] == '\r' {
                cur.pop();
                proof {
                    assert(cur@ =~= strip_cr(line_fold(pre).1));
                }
            } else {
                proof {
                    assert(cur@ =~= strip_cr(line_fold(pre).1));
                }
            }
            done.push(cur);
            cur = Vec::new();
            proof {
                assert(done@.map_values(|l: Vec<char>| l@) =~= line_fold(pre).0.push(
                    strip_cr(line_fold(pre).1),
                ));
            }
        } else {
            cur.push(c);
        }
        i += 1;
    }
    proof {
        assert(text@.take(text@.len() as int) =~= text@);
    }
    if cur.len() > 0 {
        done.push(cur);
        proof {
            assert(done@.map_values(|l: Vec<char>| l@) =~= line_fold(text@).0.push(
                line_fold(text@).1,
            ));
        }
    }
    done
}

fn is_model_token_exec(t: &Vec<char>) -> (r: bool)
    ensures
        r == is_model_token(t@),
{
    proof {
        reveal_strlit("model:");
    }
    if t.len() >= 6 && t[0] == 'm' && t[1] == 'o' && t[2] == 'd' && t[3] == 'e' && t[4] == 'l'
        && t[5] == ':' {
        proof {
            assert(t@.take(6) =~= "model:"@);
        }
        true
    } else {
        proof {
            assert(t@.len() >= 6 && t@.take(6) == "model:"@ ==> {
                &&& t@[0] == 'm'
                &&& t@[1] == 'o'
                &&& t@[2] == 'd'
                &&& t@[3] == 'e'
                &&& t@[4] == 'l'
                &&& t@[5] == ':'
            }) by {
                if t@.len() >= 6 && t@.take(6) == "model:"@ {
                    assert(t@.take(6)[0] == t@[0]);
                    assert(t@.take(6)[1] == t@[1]);
                    assert(t@.take(6)[2] == t@[2]);
                    assert(t@.take(6)[3] == t@[3]);
                    assert(t@.take(6)[4] == t@[4]);
                    assert(t@.take(6)[5] == t@[5]);
                }
            }
        }
        false
    }
}

fn is_device_token(t: &Vec<char>) -> (r: bool)
    ensures
        r == (t@ == "device"@),
{
    proof {
        reveal_strlit("device");
    }
    if t.len() == 6 && t[0] == 'd' && t[1] == 'e' && t[2] == 'v' && t[3] == 'i' && t[4] == 'c'
        && t[5] == 'e' {
        proof {
            assert(t@ =~= "device"@);
        }
        true
    } else {
        proof {
            assert(t@ == "device"@ ==> {
                &&& t@.len() == 6
                &&& t@[0] == 'd'
                &&& t@[1] == 'e'
                &&& t@[2] == 'v'
                &&& t@[3] == 'i'
                &&& t@[4] == 'c'
                &&& t@[5] == 'e'
            });
        }
        false
    }
}

/// The display name for a model token: strips `model:` and maps `_` to a
/// space.
fn model_name_exec(t: &Vec<char>) -> (r: String)
    requires
        is_model_token(t@),
    ensures
        r@ == model_name(t@),
{
    let mut out: Vec<char> = Vec::new();
    let mut i: usize = 6;
    proof {
        assert(out@ =~= t@.subrange(6, 6).map_values(|c: char| if c == '_' { ' ' } else { c }));
    }
    while i < t.len()
        invariant
            6 <= i <= t@.len(),
            t@.len() >= 6,
            out@ == t@.subrange(6, i as int).map_values(
                |c: char| if c == '_' { ' ' } else { c },
            ),
        decreases t@.len() - i,
    {
        let c = t[i];
        let mapped = if c == '_' { ' ' } else { c };
        out.push(mapped);
        proof {
            assert(t@.subrange(6, i + 1).map_values(|c: char| if c == '_' { ' ' } else { c })
                =~= t@.subrange(6, i as int).map_values(
                |c: char| if c == '_' { ' ' } else { c },
            ).push(if t@[i as int] == '_' { ' ' } else { t@[i as int] }));
        }
        i += 1;
    }
    proof {
        assert(t@.subrange(6, t@.len() as int) =~= t@.skip(6));
    }
    string_of_chars(&out)
}

/// The device record of one listing line, if the line is a well-formed
/// online entry.
fn parse_line_exec(line: &Vec<char>) -> (r: Option<Device>)
    ensures
        match r {
            Some(d) => parse_line(line@) == Some(d@),
            None => parse_line(line@) is None,
        },
{
    let toks = tokenize(line);
    let ghost tv = toks@.map_values(|t: Vec<char>| t@);
    if toks.len() < 2 {
        return None;
    }
    proof {
        assert(tv[1] == toks@[1]@);
    }
    if !is_device_token(&toks[1]) {
        return None;
    }
    // The line is a device entry; find its display name.
    let mut j: usize = 0;
    let mut model: Option<usize> = None;
    while j < toks.len() && model.is_none()
        invariant
            j <= toks@.len(),
            tv == toks@.map_values(|t: Vec<char>| t@),
            match model {
                Some(k) => k < j && is_model_token(tv[k as int]) && find_model_from(tv, 0)
                    == Some(tv[k as int]),
                None => find_model_from(tv, 0) == find_model_from(tv, j as int),
            },
        decreases toks@.len() - j,
    {
        proof {
            assert(tv[j as int] == toks@[j as int]@);
        }
        if is_model_token_exec(&toks[j]) {
            model = Some(j);
            proof {
                assert(find_model_from(tv, j as int) == Some(tv[j as int]));
            }
        } else {
            proof {
                assert(find_model_from(tv, j as int) == find_model_from(tv, j + 1));
            }
        }
        j += 1;
    }
    let name: String = match model {
        Some(k) => {
            proof {
                assert(tv[k as int] == toks@[k as int]@);
            }
            model_name_exec(&toks[k])
        },
        None => {
            proof {
                assert(j == toks@.len());
                assert(find_model_from(tv, tv.len() as int) is None);
            }
            string_of_chars(&toks[0])
        },
    };
    let id = string_of_chars(&toks[0]);
    let status = string_of_chars(&toks[1]);
    proof {
        assert(tv[0] == toks@[0]@);
        assert(tv[1] == toks@[1]@);
    }
    let d = Device { id, name, status };
    proof {
        assert(d@.id == tv[0]);
        assert(d@.status == tv[1]);
        assert(d@.name == name_of(tv));
        assert(parse_line(line@) == Some(d@));
    }
    Some(d)
}

/// Parses the bridge tool's listing output.
///
/// The first line is skipped as a header; every later line with at least
/// two whitespace tokens whose second token is `device` yields one record,
/// in order of appearance; all other lines yield nothing.
pub fn parse_devices(output: &str) -> (r: Vec<Device>)
    ensures
        r@.map_values(|d: Device| d@) == parse_listing(output@),
{
    let chars = crate::text::chars_of(output);
    let lines = split_lines(&chars);
    let ghost lv = lines@.map_values(|l: Vec<char>| l@);
    let mut r: Vec<Device> = Vec::new();
    let mut i: usize = 1;
    proof {
        assert(r@.map_values(|d: Device| d@) =~= Seq::<DeviceModel>::empty());
        if lv.len() < 1 {
            assert(devices_from(lv, 1) =~= Seq::<DeviceModel>::empty());
        }
    }
    while i < lines.len()
        invariant
            1 <= i,
            i <= lines@.len() || (i == 1 && lines@.len() == 0),
            lv == lines@.map_values(|l: Vec<char>| l@),
            r@.map_values(|d: Device| d@) + devices_from(lv, i as int) == devices_from(lv, 1),
        decreases lines@.len() - i,
    {
        proof {
            assert(lv[i as int] == lines@[i as int]@);
        }
        match parse_line_exec(&lines[i]) {
            Some(d) => {
                let ghost prev = r@.map_values(|x: Device| x@);
                r.push(d);
                proof {
                    assert(r@.map_values(|x: Device| x@) =~= prev.push(d@));
                    assert(prev.push(d@) + devices_from(lv, i + 1) =~= prev + (seq![d@]
                        + devices_from(lv, i + 1)));
                }
            },
            None => {},
        }
        i += 1;
    }
    proof {
        if lv.len() >= 1 {
            assert(devices_from(lv, lv.len() as int) =~= Seq::<DeviceModel>::empty());
        }
        assert(r@.map_values(|d: Device| d@) + Seq::<DeviceModel>::empty() =~= r@.map_values(
            |d: Device| d@,
        ));
    }
    r
}

} // verus!
