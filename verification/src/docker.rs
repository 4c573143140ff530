//! What is made of the container engine's answers.

use crate::codec::{json_document, parse_json};
use crate::error::{AppError, AppResult};
use crate::json::JsonValue;
use crate::keyed::{as_map, distinct_keys, put_distinct};
use crate::pieces::{lines, lines_of, str_views, views};
use crate::text::{chars_of, glue, string_of};
use vstd::prelude::*;

verus! {

/// `a` comes before `b`, or is `b`, in the order of their bytes.
pub open spec fn bytes_le(a: Seq<u8>, b: Seq<u8>) -> bool
    decreases a.len(),
{
    if a.len() == 0 {
        true
    } else if b.len() == 0 {
        false
    } else if a[0] != b[0] {
        a[0] < b[0]
    } else {
        bytes_le(a.drop_first(), b.drop_first())
    }
}

/// The texts stand in the order of their UTF-8 bytes.
pub open spec fn in_order(list: Seq<Seq<char>>) -> bool {
    forall|i: int, j: int|
        0 <= i <= j < list.len() ==> bytes_le(
            vstd::utf8::encode_utf8(#[trigger] list[i]),
            vstd::utf8::encode_utf8(#[trigger] list[j]),
        )
}

/// `<[String]>::sort`: the same strings, each as often as before, in the
/// order of their bytes.
#[verifier::external_body]
fn sort_strings(list: &mut Vec<String>)
    ensures
        str_views(final(list)@).to_multiset() == str_views(old(list)@).to_multiset(),
        in_order(str_views(final(list)@)),
{
    list.sort()
}

/// The exit code to report for a command: -1 where the engine was ended by
/// a signal and has none.
pub fn exit_code(code: Option<i32>) -> (r: i32)
    ensures
        r == match code {
            Some(c) => c,
            None => -1i32,
        },
{
    match code {
        Some(c) => c,
        None => -1,
    }
}

/// A line of a command's output as it is sent to the terminal: with
/// carriage return and line feed behind it.
pub fn compose_exec(line: &str) -> (r: String)
    ensures
        r@ == line@ + "\r\n"@,
{
    glue(line, "\r\n")
}

/// What a captured command gave: exit code, output and error output.
pub fn compose_exec_capture(code: Option<i32>, stdout: String, stderr: String) -> (r: (
    i32,
    String,
    String,
))
    ensures
        r.0 == match code {
            Some(c) => c,
            None => -1i32,
        },
        r.1 == stdout,
        r.2 == stderr,
{
    (exit_code(code), stdout, stderr)
}

/// The lines that are not empty, in their order.
pub open spec fn filled(ls: Seq<Seq<char>>) -> Seq<Seq<char>>
    decreases ls.len(),
{
    if ls.len() == 0 {
        Seq::empty()
    } else if ls.last().len() == 0 {
        filled(ls.drop_last())
    } else {
        filled(ls.drop_last()).push(ls.last())
    }
}

/// The engine's networks from the output of `network ls --format
/// {{.Name}}`: its lines that are not empty, sorted.
pub fn get_network_list(stdout: &str) -> (r: Vec<String>)
    ensures
        str_views(r@).to_multiset() == filled(lines(stdout@)).to_multiset(),
        in_order(str_views(r@)),
{
    let text = chars_of(stdout);
    let ls = lines_of(&text);
    let mut out: Vec<String> = Vec::new();
    let mut i: usize = 0;
    assert(views(ls@).take(0) =~= Seq::empty());
    assert(str_views(out@) =~= Seq::empty());
    while i < ls.len()
        invariant
            i <= ls.len(),
            views(ls@) == lines(stdout@),
            str_views(out@) == filled(views(ls@).take(i as int)),
        decreases ls.len() - i,
    {
        assert(views(ls@).take(i + 1).drop_last() == views(ls@).take(i as int));
        assert(views(ls@).take(i + 1).last() == ls@[i as int]@);
        if ls[i].len() > 0 {
            let line = string_of(&ls[i]);
            assert(str_views(out@.push(line)) =~= str_views(out@).push(ls@[i as int]@));
            out.push(line);
        }
        i = i + 1;
    }
    assert(views(ls@).take(ls.len() as int) == views(ls@));
    sort_strings(&mut out);
    out
}

/// The statistics that the lines of `stats --format json --no-stream`
/// give: every line that is a JSON document with a string `Name`, under
/// that name; of two such lines with one name the later counts.
pub open spec fn stats_of(ls: Seq<Seq<char>>) -> Map<Seq<char>, JsonValue>
    decreases ls.len(),
{
    if ls.len() == 0 {
        Map::empty()
    } else {
        let m = stats_of(ls.drop_last());
        match json_document(ls.last()) {
            Some(doc) => match doc.member("Name"@) {
                Some(JsonValue::Str(name)) => m.insert(name@, doc),
                _ => m,
            },
            None => m,
        }
    }
}

/// The engine's statistics by container.
pub fn get_docker_stats(stdout: &str) -> (r: Vec<(String, JsonValue)>)
    ensures
        distinct_keys(r@),
        as_map(r@) == stats_of(lines(stdout@)),
{
    let text = chars_of(stdout);
    let ls = lines_of(&text);
    let mut out: Vec<(String, JsonValue)> = Vec::new();
    let mut i: usize = 0;
    assert(views(ls@).take(0) =~= Seq::empty());
    assert(as_map(out@) =~= Map::<Seq<char>, JsonValue>::empty());
    while i < ls.len()
        invariant
            i <= ls.len(),
            views(ls@) == lines(stdout@),
            distinct_keys(out@),
            as_map(out@) == stats_of(views(ls@).take(i as int)),
        decreases ls.len() - i,
    {
        assert(views(ls@).take(i + 1).drop_last() == views(ls@).take(i as int));
        assert(views(ls@).take(i + 1).last() == ls@[i as int]@);
        let line = string_of(&ls[i]);
        match parse_json(line.as_str()) {
            Some(doc) => {
                let name = match doc.get("Name") {
                    Some(JsonValue::Str(n)) => Some(n.clone()),
                    _ => None,
                };
                match name {
                    Some(n) => {
                        put_distinct(&mut out, n, doc);
                    },
                    None => {},
                }
            },
            None => {},
        }
        i = i + 1;
    }
    assert(views(ls@).take(ls.len() as int) == views(ls@));
    out
}

/// What the inspection of a container gives: its output, or the engine's
/// complaint.
pub fn container_inspect(success: bool, stdout: String, stderr: &str) -> (r: AppResult<String>)
    ensures
        match r {
            Ok(out) => success && out == stdout,
            Err(e) => !success && (e matches AppError::Internal(msg) && msg@
                == "docker inspect failed: "@ + stderr@),
        },
{
    if success {
        Ok(stdout)
    } else {
        Err(AppError::Internal(glue("docker inspect failed: ", stderr)))
    }
}

} // verus!
