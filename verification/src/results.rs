//! What a build reports: the paths of the outputs that were asked for.
use vstd::prelude::*;
use vstd::utf8::{decode_utf8, valid_utf8};

use crate::bytes::{utf8_fault, utf8_text};
use crate::json::{
    json_entries, json_list_fault, json_of_bytes, json_values, lemma_json_entries,
    lemma_json_values, parse_bytes_as_list, Json, JsonValue,
};
use crate::names::{lemma_position_of, lookup};
use crate::push::PushProfileError;
use crate::text::{
    around_last, ended_lines, is_space, law_blank_text_has_no_word, law_lines_are_read_back,
    law_text_is_split_at_the_last, law_trimmed_line, line_texts, lines_of, pieces, same_text, split_at_last, texts, trim, trimmed,
};

verus! {

/// The paths that a build printed, one on each line.
pub open spec fn printed_paths(text: Seq<char>) -> Seq<Seq<char>> {
    line_texts(trimmed(text)).map_values(|line: Seq<char>| trimmed(line))
}

/// `e` is what is wrong with the output of `nix-build`, of which a number of
/// paths is expected.
pub open spec fn is_paths_error(stdout: Seq<u8>, expected: int, e: PushProfileError) -> bool {
    let text = decode_utf8(stdout);
    match e {
        PushProfileError::BuildStdoutUtf8(fault) => !valid_utf8(stdout) && fault@ == utf8_fault(
            stdout,
        ),
        PushProfileError::BuildStdoutEmpty => valid_utf8(stdout) && trimmed(text).len() == 0,
        PushProfileError::BuildStdoutPathCount { actual, expected: wanted, paths } => {
            &&& valid_utf8(stdout)
            &&& trimmed(text).len() > 0
            &&& actual == printed_paths(text).len()
            &&& actual != expected
            &&& wanted == expected
            &&& paths@ == trimmed(text)
        },
        _ => false,
    }
}

/// The paths that `nix-build` printed to its standard output. There has to be
/// one for each of the derivations that were asked for.
pub fn parse_build_out_paths(stdout: &[u8], expected: usize) -> (r: Result<
    Vec<String>,
    PushProfileError,
>)
    ensures
        match r {
            Ok(paths) => {
                &&& valid_utf8(stdout@)
                &&& trimmed(decode_utf8(stdout@)).len() > 0
                &&& texts(paths@) == printed_paths(decode_utf8(stdout@))
                &&& paths@.len() == expected
            },
            Err(e) => is_paths_error(stdout@, expected as int, e),
        },
{
    let text = match utf8_text(stdout) {
        Ok(text) => text,
        Err(err) => return Err(PushProfileError::BuildStdoutUtf8(err)),
    };
    let all = trim(text.as_str());
    if all.as_str().is_empty() {
        return Err(PushProfileError::BuildStdoutEmpty);
    }
    let lines = lines_of(all.as_str());
    let mut paths: Vec<String> = Vec::new();
    let mut i: usize = 0;
    while i < lines.len()
        invariant
            i <= lines@.len(),
            paths@.len() == i,
            forall|j: int| 0 <= j < i ==> (#[trigger] paths@[j])@ == trimmed(lines@[j]@),
        decreases lines@.len() - i,
    {
        paths.push(trim(lines[i].as_str()));
        i += 1;
    }
    assert(texts(paths@) =~= printed_paths(text@)) by {
        assert(texts(lines@) == line_texts(all@));
        assert forall|j: int| 0 <= j < paths@.len() implies texts(paths@)[j] == printed_paths(
            text@,
        )[j] by {
            assert(texts(lines@)[j] == lines@[j]@);
        }
    }
    assert(paths@.len() == texts(paths@).len());
    if paths.len() != expected {
        return Err(
            PushProfileError::BuildStdoutPathCount { actual: paths.len(), expected, paths: all },
        );
    }
    Ok(paths)
}

/// The identity of a derivation in the output of a build: its path, or for a
/// dynamic derivation the identity of the one that produces it, with the output
/// that it is.
pub open spec fn drv_identity(value: JsonValue) -> Option<Seq<char>>
    decreases value,
{
    match value {
        JsonValue::Text(path) => Some(path),
        JsonValue::Object(entries) => {
            proof {
                lemma_position_of(entries, "drvPath"@);
            }
            match (lookup(entries, "drvPath"@), value.get("output"@)) {
                (Some(inner), Some(JsonValue::Text(output))) => match drv_identity(inner) {
                    Some(identity) => Some(identity + "^"@ + output),
                    None => None,
                },
                _ => None,
            }
        },
        _ => None,
    }
}

/// The identity of a derivation in the output of a build.
pub fn json_drv_path(value: &Json) -> (r: Result<String, PushProfileError>)
    ensures
        match r {
            Ok(identity) => drv_identity(value.value()) == Some(identity@),
            Err(e) => drv_identity(value.value()) is None && e
                == PushProfileError::BuildStdoutInvalidDerivation,
        },
    decreases value.value(),
{
    if let Some(path) = value.as_text() {
        return Ok(path.to_string());
    }
    if value.as_entries().is_none() {
        return Err(PushProfileError::BuildStdoutInvalidDerivation);
    }
    let drv_path = match value.get("drvPath") {
        Some(drv_path) => drv_path,
        None => return Err(PushProfileError::BuildStdoutInvalidDerivation),
    };
    let output = match value.get("output") {
        Some(output) => match output.as_text() {
            Some(output) => output,
            None => return Err(PushProfileError::BuildStdoutInvalidDerivation),
        },
        None => return Err(PushProfileError::BuildStdoutInvalidDerivation),
    };
    proof {
        let entries = value.value()->Object_0;
        lemma_position_of(entries, "drvPath"@);
    }
    match json_drv_path(drv_path) {
        Ok(identity) => Ok(identity.concat("^").concat(output)),
        Err(e) => Err(e),
    }
}

/// An output of a derivation: the identity of the derivation, and the name of
/// the output.
pub type OutputId = (Seq<char>, Seq<char>);

/// Why the output of a build cannot be used.
pub enum BuildFault {
    /// A derivation has no proper identity.
    Invalid,
    /// The paths of the outputs of a derivation are wanting.
    Missing(Seq<char>),
}

/// All values are texts.
pub open spec fn all_texts(entries: Seq<(Seq<char>, JsonValue)>) -> bool {
    forall|i: int| 0 <= i < entries.len() ==> (#[trigger] entries[i]).1 is Text
}

/// The outputs that one result of a build gives paths for.
pub open spec fn result_outputs(result: JsonValue) -> Result<
    Seq<(OutputId, Seq<char>)>,
    BuildFault,
> {
    match result.get("drvPath"@) {
        Some(drv_path) => match drv_identity(drv_path) {
            Some(identity) => match result.get("outputs"@) {
                Some(JsonValue::Object(entries)) if all_texts(entries) => Ok(
                    entries.map_values(
                        |e: (Seq<char>, JsonValue)| ((identity, e.0), e.1->Text_0),
                    ),
                ),
                _ => Err(BuildFault::Missing(identity)),
            },
            None => Err(BuildFault::Invalid),
        },
        None => Err(BuildFault::Invalid),
    }
}

/// The outputs that all results of a build give paths for, in order, or what is
/// wrong with the first result that cannot be used.
pub open spec fn realised_outputs(results: Seq<JsonValue>) -> Result<
    Seq<(OutputId, Seq<char>)>,
    BuildFault,
>
    decreases results.len(),
{
    if results.len() == 0 {
        Ok(Seq::empty())
    } else {
        match realised_outputs(results.drop_last()) {
            Ok(done) => match result_outputs(results.last()) {
                Ok(more) => Ok(done + more),
                Err(fault) => Err(fault),
            },
            Err(fault) => Err(fault),
        }
    }
}

/// The path that is given last for an output.
pub open spec fn realised_path(outputs: Seq<(OutputId, Seq<char>)>, id: OutputId) -> Option<
    Seq<char>,
>
    decreases outputs.len(),
{
    if outputs.len() == 0 {
        None
    } else if outputs.last().0 == id {
        Some(outputs.last().1)
    } else {
        realised_path(outputs.drop_last(), id)
    }
}

/// The output that an installable stands for: what follows its last `^` is the
/// name of the output, which is `out` where there is none.
pub open spec fn wanted_output(installable: Seq<char>) -> OutputId {
    match around_last(installable, '^') {
        Some(parts) => parts,
        None => (installable, "out"@),
    }
}

/// An output with its path.
struct RealisedOutput {
    identity: String,
    output: String,
    path: String,
}

spec fn output_models(v: Seq<RealisedOutput>) -> Seq<(OutputId, Seq<char>)> {
    v.map_values(|o: RealisedOutput| ((o.identity@, o.output@), o.path@))
}

/// Adds the outputs of one result of a build.
fn add_outputs(done: &mut Vec<RealisedOutput>, result: &Json) -> (r: Result<(), PushProfileError>)
    ensures
        match result_outputs(result.value()) {
            Ok(more) => r is Ok && output_models(final(done)@) == output_models(old(done)@) + more,
            Err(BuildFault::Invalid) => r == Err::<(), _>(
                PushProfileError::BuildStdoutInvalidDerivation,
            ),
            Err(BuildFault::Missing(identity)) => r matches Err(
                PushProfileError::BuildStdoutMissingDerivation(d),
            ) && d@ == identity,
        },
{
    let drv_path = match result.get("drvPath") {
        Some(drv_path) => drv_path,
        None => return Err(PushProfileError::BuildStdoutInvalidDerivation),
    };
    let identity = match json_drv_path(drv_path) {
        Ok(identity) => identity,
        Err(e) => return Err(e),
    };
    let entries = match result.get("outputs") {
        Some(outputs) => match outputs.as_entries() {
            Some(entries) => entries,
            None => return Err(PushProfileError::BuildStdoutMissingDerivation(identity)),
        },
        None => return Err(PushProfileError::BuildStdoutMissingDerivation(identity)),
    };
    let ghost models = json_entries(entries@);
    let ghost before = output_models(done@);
    proof {
        lemma_json_entries(entries@);
    }
    let mut i: usize = 0;
    while i < entries.len()
        invariant
            i <= entries@.len() == models.len(),
            models == json_entries(entries@),
            forall|j: int|
                0 <= j < entries@.len() ==> #[trigger] models[j] == (
                    entries@[j].0@,
                    entries@[j].1.value(),
                ),
            forall|j: int| 0 <= j < i ==> (#[trigger] models[j]).1 is Text,
            output_models(done@).len() == before.len() + i,
            forall|j: int| 0 <= j < before.len() ==> output_models(done@)[j] == before[j],
            forall|j: int|
                0 <= j < i ==> output_models(done@)[before.len() + j] == (
                    (identity@, (#[trigger] models[j]).0),
                    models[j].1->Text_0,
                ),
            result.value().get("outputs"@) == Some(JsonValue::Object(models)),
            result.value().get("drvPath"@) matches Some(d) && drv_identity(d) == Some(identity@),
        decreases entries@.len() - i,
    {
        let path = match entries[i].1.as_text() {
            Some(path) => path.to_string(),
            None => {
                assert(models[i as int].1 !is Text);
                return Err(PushProfileError::BuildStdoutMissingDerivation(identity));
            },
        };
        let ghost so_far = done@;
        done.push(
            RealisedOutput { identity: identity.clone(), output: entries[i].0.clone(), path },
        );
        assert(output_models(done@) =~= output_models(so_far).push(
            ((identity@, models[i as int].0), models[i as int].1->Text_0),
        ));
        i += 1;
    }
    assert(all_texts(models));
    assert(output_models(done@) =~= before + models.map_values(
        |e: (Seq<char>, JsonValue)| ((identity@, e.0), e.1->Text_0),
    ));
    Ok(())
}

/// The path that is given last for an output.
fn find_output(outputs: &Vec<RealisedOutput>, identity: &str, output: &str) -> (r: Option<String>)
    ensures
        match r {
            Some(path) => realised_path(output_models(outputs@), (identity@, output@)) == Some(
                path@,
            ),
            None => realised_path(output_models(outputs@), (identity@, output@)) is None,
        },
{
    let ghost all = output_models(outputs@);
    let mut n: usize = outputs.len();
    assert(all.take(n as int) =~= all);
    while n > 0
        invariant
            n <= outputs@.len(),
            all == output_models(outputs@),
            realised_path(all, (identity@, output@)) == realised_path(
                all.take(n as int),
                (identity@, output@),
            ),
        decreases n,
    {
        assert(all.take(n as int).drop_last() =~= all.take(n - 1));
        assert(all.take(n as int).last() == all[n - 1]);
        let entry = &outputs[n - 1];
        if same_text(entry.identity.as_str(), identity) && same_text(entry.output.as_str(), output) {
            return Some(entry.path.clone());
        }
        n -= 1;
    }
    None
}

/// `r` is what the results of a build come to for the given installables: the
/// path of each of them, or what is wrong with the results, or else the first
/// installable that they give no path for.
pub open spec fn is_assignment(
    results: Seq<JsonValue>,
    derivations: Seq<&str>,
    r: Result<Vec<String>, PushProfileError>,
) -> bool {
    match realised_outputs(results) {
        Ok(outputs) => match r {
            Ok(paths) => {
                &&& paths@.len() == derivations.len()
                &&& forall|i: int|
                    0 <= i < paths@.len() ==> realised_path(
                        outputs,
                        wanted_output((#[trigger] derivations[i])@),
                    ) == Some(paths@[i]@)
            },
            Err(PushProfileError::BuildStdoutMissingDerivation(derivation)) => exists|i: int|
                {
                    &&& 0 <= i < derivations.len()
                    &&& (#[trigger] derivations[i])@ == derivation@
                    &&& realised_path(outputs, wanted_output(derivation@)) is None
                    &&& forall|j: int|
                        0 <= j < i ==> realised_path(
                            outputs,
                            wanted_output((#[trigger] derivations[j])@),
                        ) is Some
                },
            Err(_) => false,
        },
        Err(BuildFault::Invalid) => r == Err::<Vec<String>, _>(
            PushProfileError::BuildStdoutInvalidDerivation,
        ),
        Err(BuildFault::Missing(identity)) => r matches Err(
            PushProfileError::BuildStdoutMissingDerivation(d),
        ) && d@ == identity,
    }
}

/// The paths of the given installables, by the results of a build. A path
/// belongs to an installable by the identity of the derivation and the name of
/// the output, not by its place among the results.
pub fn assign_outputs(results: &[Json], derivations: &[&str]) -> (r: Result<
    Vec<String>,
    PushProfileError,
>)
    ensures
        is_assignment(json_values(results@), derivations@, r),
{
    let ghost values = json_values(results@);
    let mut outputs: Vec<RealisedOutput> = Vec::new();
    let mut i: usize = 0;
    proof {
        lemma_json_values(results@);
        assert(values.take(0) =~= Seq::empty());
        assert(output_models(outputs@) =~= Seq::empty());
    }
    while i < results.len()
        invariant
            i <= results@.len() == values.len(),
            values == json_values(results@),
            forall|j: int| 0 <= j < values.len() ==> #[trigger] values[j] == results@[j].value(),
            realised_outputs(values.take(i as int)) == Ok::<_, BuildFault>(
                output_models(outputs@),
            ),
        decreases results@.len() - i,
    {
        assert(values.take(i + 1).drop_last() =~= values.take(i as int));
        assert(values.take(i + 1).last() == results@[i as int].value());
        let added = add_outputs(&mut outputs, &results[i]);
        if let Err(e) = added {
            proof {
                lemma_fault_stays(values, i + 1);
            }
            return Err(e);
        }
        i += 1;
    }
    assert(values.take(i as int) =~= values);
    let mut paths: Vec<String> = Vec::new();
    let mut k: usize = 0;
    while k < derivations.len()
        invariant
            k <= derivations@.len(),
            paths@.len() == k,
            realised_outputs(json_values(results@)) == Ok::<_, BuildFault>(
                output_models(outputs@),
            ),
            forall|j: int|
                0 <= j < k ==> realised_path(
                    output_models(outputs@),
                    wanted_output((#[trigger] derivations@[j])@),
                ) == Some(paths@[j]@),
        decreases derivations@.len() - k,
    {
        let derivation = derivations[k];
        let (drv_path, output_name) = match split_at_last(derivation, '^') {
            Some(parts) => parts,
            None => (derivation.to_string(), "out".to_string()),
        };
        match find_output(&outputs, drv_path.as_str(), output_name.as_str()) {
            Some(path) => {
                paths.push(path);
            },
            None => {
                assert(derivations@[k as int]@ == derivation@);
                return Err(PushProfileError::BuildStdoutMissingDerivation(derivation.to_string()));
            },
        }
        k += 1;
    }
    Ok(paths)
}

/// What is wrong with the first results stays wrong, whatever follows.
proof fn lemma_fault_stays(results: Seq<JsonValue>, n: int)
    requires
        0 <= n <= results.len(),
        realised_outputs(results.take(n)) is Err,
    ensures
        realised_outputs(results) == realised_outputs(results.take(n)),
    decreases results.len() - n,
{
    if n == results.len() {
        assert(results.take(n) =~= results);
    } else {
        assert(results.take(n + 1).drop_last() =~= results.take(n));
        lemma_fault_stays(results, n + 1);
    }
}

/// The paths of the given installables, by what `nix build --json` printed.
pub fn parse_build_json(stdout: &[u8], derivations: &[&str]) -> (r: Result<
    Vec<String>,
    PushProfileError,
>)
    ensures
        match json_of_bytes(stdout@) {
            Ok(JsonValue::Array(results)) => is_assignment(results, derivations@, r),
            _ => r matches Err(PushProfileError::BuildStdoutParse(fault)) && fault@
                == json_list_fault(stdout@),
        },
{
    match parse_bytes_as_list(stdout) {
        Ok(results) => assign_outputs(results.as_slice(), derivations),
        Err(err) => Err(PushProfileError::BuildStdoutParse(err.to_string())),
    }
}

/// An installable that selects an output of a derivation, whatever the path or
/// identity of the derivation holds, is read back as that output.
pub proof fn law_installable_is_read_back(identity: Seq<char>, output: Seq<char>)
    requires
        !output.contains('^'),
    ensures
        wanted_output(identity + "^"@ + output) == (identity, output),
    decreases output.len(),
{
    reveal_strlit("^");
    let t = identity + "^"@ + output;
    if output.len() == 0 {
        assert(t =~= identity.push('^'));
        assert(t.drop_last() =~= identity);
        assert(output =~= Seq::<char>::empty());
    } else {
        let init = output.drop_last();
        assert forall|i: int| 0 <= i < init.len() implies init[i] != '^' by {
            assert(output.contains(output[i]));
        }
        law_installable_is_read_back(identity, init);
        assert(t.drop_last() =~= identity + "^"@ + init);
        assert(output.contains(output.last()));
        assert(init.push(output.last()) =~= output);
        lemma_around_last_is_some(identity, init);
    }
}

/// A text that holds a `^` has a last one.
proof fn lemma_around_last_is_some(before: Seq<char>, after: Seq<char>)
    ensures
        around_last(before + "^"@ + after, '^') is Some,
    decreases after.len(),
{
    reveal_strlit("^");
    let t = before + "^"@ + after;
    if after.len() == 0 {
        assert(t.last() == '^');
    } else {
        assert(t.drop_last() =~= before + "^"@ + after.drop_last());
        lemma_around_last_is_some(before, after.drop_last());
    }
}

/// The outputs of all results are those of each result.
proof fn lemma_realised_outputs(results: Seq<JsonValue>)
    ensures
        realised_outputs(results) is Ok <==> forall|i: int|
            0 <= i < results.len() ==> result_outputs(#[trigger] results[i]) is Ok,
        realised_outputs(results) matches Ok(outputs) ==> forall|e: (OutputId, Seq<char>)| #[trigger]
            outputs.contains(e) <==> exists|i: int|
                0 <= i < results.len() && (result_outputs(#[trigger] results[i])->Ok_0).contains(e),
    decreases results.len(),
{
    if results.len() > 0 {
        let init = results.drop_last();
        let last = results.last();
        lemma_realised_outputs(init);
        assert forall|i: int| 0 <= i < init.len() implies #[trigger] init[i] == results[i] by {}
        assert(last == results[results.len() - 1]);
        if realised_outputs(init) is Ok && result_outputs(last) is Ok {
            let done = realised_outputs(init)->Ok_0;
            let more = result_outputs(last)->Ok_0;
            let outputs = done + more;
            assert forall|i: int| 0 <= i < results.len() implies result_outputs(
                #[trigger] results[i],
            ) is Ok by {
                if i < init.len() {
                    assert(result_outputs(init[i]) is Ok);
                }
            }
            assert forall|e: (OutputId, Seq<char>)| #[trigger] outputs.contains(e) <==> exists|
                i: int,
            |
                0 <= i < results.len() && (result_outputs(#[trigger] results[i])->Ok_0).contains(
                    e,
                ) by {
                if outputs.contains(e) {
                    let k = choose|k: int| 0 <= k < outputs.len() && outputs[k] == e;
                    if k < done.len() {
                        assert(done[k] == e);
                        assert(done.contains(e));
                        let i = choose|i: int|
                            0 <= i < init.len() && (result_outputs(
                                #[trigger] init[i],
                            )->Ok_0).contains(e);
                        assert(result_outputs(results[i])->Ok_0.contains(e));
                    } else {
                        assert(more[k - done.len()] == e);
                        assert(result_outputs(results[results.len() - 1])->Ok_0.contains(e));
                    }
                }
                if exists|i: int|
                    0 <= i < results.len() && (result_outputs(#[trigger] results[i])->Ok_0).contains(
                        e,
                    ) {
                    let i = choose|i: int|
                        0 <= i < results.len() && (result_outputs(
                            #[trigger] results[i],
                        )->Ok_0).contains(e);
                    if i < init.len() {
                        assert(result_outputs(init[i])->Ok_0.contains(e));
                        assert(done.contains(e));
                        let k = choose|k: int| 0 <= k < done.len() && done[k] == e;
                        assert(outputs[k] == e);
                    } else {
                        let k = choose|k: int| 0 <= k < more.len() && more[k] == e;
                        assert(outputs[done.len() + k] == e);
                    }
                }
            }
        } else if realised_outputs(init) is Ok {
            assert(result_outputs(results[results.len() - 1]) is Err);
        } else {
            let i = choose|i: int|
                0 <= i < init.len() && !(result_outputs(#[trigger] init[i]) is Ok);
            assert(!(result_outputs(results[i]) is Ok));
        }
    }
}

/// No output is given two different paths.
pub open spec fn is_consistent(outputs: Seq<(OutputId, Seq<char>)>) -> bool {
    forall|i: int, j: int|
        0 <= i < outputs.len() && 0 <= j < outputs.len() && (#[trigger] outputs[i]).0 == (
        #[trigger] outputs[j]).0 ==> outputs[i].1 == outputs[j].1
}

proof fn lemma_realised_path(outputs: Seq<(OutputId, Seq<char>)>, id: OutputId)
    ensures
        match realised_path(outputs, id) {
            Some(path) => outputs.contains((id, path)),
            None => forall|i: int| 0 <= i < outputs.len() ==> (#[trigger] outputs[i]).0 != id,
        },
    decreases outputs.len(),
{
    if outputs.len() > 0 {
        let init = outputs.drop_last();
        lemma_realised_path(init, id);
        if outputs.last().0 == id {
            assert(outputs[outputs.len() - 1] == (id, outputs.last().1));
        } else {
            match realised_path(init, id) {
                Some(path) => {
                    let k = choose|k: int| 0 <= k < init.len() && init[k] == (id, path);
                    assert(outputs[k] == (id, path));
                },
                None => {
                    assert forall|i: int| 0 <= i < outputs.len() implies (
                    #[trigger] outputs[i]).0 != id by {
                        if i < init.len() {
                            assert(init[i].0 != id);
                        }
                    }
                },
            }
        }
    }
}

/// The order in which a build reports its results, and how often it reports
/// one, does not matter, as long as no output is given two different paths: the
/// same results give each installable the same path.
pub proof fn law_order_of_results_does_not_matter(
    results: Seq<JsonValue>,
    others: Seq<JsonValue>,
    installable: Seq<char>,
)
    requires
        forall|r: JsonValue| results.contains(r) <==> others.contains(r),
        realised_outputs(results) matches Ok(outputs) ==> is_consistent(outputs),
    ensures
        realised_outputs(results) is Ok <==> realised_outputs(others) is Ok,
        realised_outputs(results) matches Ok(outputs) ==> realised_path(
            outputs,
            wanted_output(installable),
        ) == realised_path(realised_outputs(others)->Ok_0, wanted_output(installable)),
{
    lemma_realised_outputs(results);
    lemma_realised_outputs(others);
    if realised_outputs(results) is Err {
        let i = choose|i: int|
            0 <= i < results.len() && !(result_outputs(#[trigger] results[i]) is Ok);
        assert(others.contains(results[i]));
        let k = choose|k: int| 0 <= k < others.len() && others[k] == results[i];
        assert(!(result_outputs(others[k]) is Ok));
    } else {
        assert forall|i: int| 0 <= i < others.len() implies result_outputs(
            #[trigger] others[i],
        ) is Ok by {
            assert(results.contains(others[i]));
            let k = choose|k: int| 0 <= k < results.len() && results[k] == others[i];
            assert(result_outputs(results[k]) is Ok);
        }
        let a = realised_outputs(results)->Ok_0;
        let b = realised_outputs(others)->Ok_0;
        let id = wanted_output(installable);
        assert forall|e: (OutputId, Seq<char>)| a.contains(e) <==> b.contains(e) by {
            if a.contains(e) {
                let i = choose|i: int|
                    0 <= i < results.len() && (result_outputs(#[trigger] results[i])->Ok_0).contains(
                        e,
                    );
                assert(others.contains(results[i]));
                let k = choose|k: int| 0 <= k < others.len() && others[k] == results[i];
                assert(result_outputs(others[k])->Ok_0.contains(e));
            }
            if b.contains(e) {
                let i = choose|i: int|
                    0 <= i < others.len() && (result_outputs(#[trigger] others[i])->Ok_0).contains(
                        e,
                    );
                assert(results.contains(others[i]));
                let k = choose|k: int| 0 <= k < results.len() && results[k] == others[i];
                assert(result_outputs(results[k])->Ok_0.contains(e));
            }
        }
        lemma_realised_path(a, id);
        lemma_realised_path(b, id);
        match (realised_path(a, id), realised_path(b, id)) {
            (Some(p), Some(q)) => {
                assert(a.contains((id, q)));
                let i = choose|i: int| 0 <= i < a.len() && a[i] == (id, p);
                let j = choose|j: int| 0 <= j < a.len() && a[j] == (id, q);
                assert(a[i].0 == a[j].0);
            },
            (Some(p), None) => {
                assert(b.contains((id, p)));
                let j = choose|j: int| 0 <= j < b.len() && b[j] == (id, p);
                assert(b[j].0 == id);
            },
            (None, Some(q)) => {
                assert(a.contains((id, q)));
                let j = choose|j: int| 0 <= j < a.len() && a[j] == (id, q);
                assert(a[j].0 == id);
            },
            (None, None) => {},
        }
    }
}

/// A path that is reported for an output of a derivation is what its installable comes
/// to, at whatever place it is reported: for the output that the installable selects,
/// and for `out` where it selects none.
pub proof fn law_reported_path_is_found(
    results: &[Json],
    derivations: &[&str],
    r: Result<Vec<String>, PushProfileError>,
    at: int,
    place: int,
    i: int,
    drv: Seq<char>,
    output: Seq<char>,
    path: Seq<char>,
    outputs: Seq<(Seq<char>, JsonValue)>,
)
    requires
        call_ensures(assign_outputs, (results, derivations), r),
        r is Ok,
        is_consistent(realised_outputs(json_values(results@))->Ok_0),
        0 <= at < results@.len(),
        results@[at].value().get("drvPath"@) == Some(JsonValue::Text(drv)),
        results@[at].value().get("outputs"@) == Some(JsonValue::Object(outputs)),
        0 <= place < outputs.len(),
        outputs[place] == (output, JsonValue::Text(path)),
        0 <= i < derivations@.len(),
        !output.contains('^'),
        derivations@[i]@ == drv + "^"@ + output || (derivations@[i]@ == drv && output == "out"@
            && !drv.contains('^')),
    ensures
        r->Ok_0@.len() == derivations@.len(),
        r->Ok_0@[i]@ == path,
{
    let values = json_values(results@);
    lemma_json_values(results@);
    let all = realised_outputs(values)->Ok_0;
    lemma_realised_outputs(values);
    assert(values[at] == results@[at].value());
    assert(result_outputs(values[at]) is Ok);
    let own = result_outputs(values[at])->Ok_0;
    assert(outputs[place].1 is Text);
    assert(own[place] == ((drv, output), path));
    assert(own.contains(((drv, output), path)));
    assert(all.contains(((drv, output), path)));
    law_installable_is_read_back(drv, output);
    if !drv.contains('^') {
        law_text_is_split_at_the_last(Seq::empty(), '^', drv);
    }
    assert(wanted_output(derivations@[i]@) == (drv, output));
    lemma_realised_path(all, (drv, output));
    let found = realised_path(all, (drv, output));
    assert(found == Some(r->Ok_0@[i]@));
    let a = choose|a: int| 0 <= a < all.len() && all[a] == ((drv, output), path);
    let b = choose|b: int| 0 <= b < all.len() && all[b] == ((drv, output), found->0);
    assert(all[a].0 == all[b].0);
}

/// No installable gets a path that was not reported for the output that it selects.
pub proof fn law_no_path_is_made_up(
    results: &[Json],
    derivations: &[&str],
    r: Result<Vec<String>, PushProfileError>,
    i: int,
)
    requires
        call_ensures(assign_outputs, (results, derivations), r),
        r is Ok,
        0 <= i < derivations@.len(),
    ensures
        exists|at: int|
            0 <= at < results@.len() && (result_outputs(
                (#[trigger] results@[at]).value(),
            )->Ok_0).contains((wanted_output(derivations@[i]@), r->Ok_0@[i]@)),
{
    let values = json_values(results@);
    lemma_json_values(results@);
    let all = realised_outputs(values)->Ok_0;
    lemma_realised_outputs(values);
    let id = wanted_output(derivations@[i]@);
    lemma_realised_path(all, id);
    assert(realised_path(all, id) == Some(r->Ok_0@[i]@));
    let at = choose|at: int|
        0 <= at < values.len() && (result_outputs(#[trigger] values[at])->Ok_0).contains(
            (id, r->Ok_0@[i]@),
        );
    assert(values[at] == results@[at].value());
}

/// A derivation is known by its path, and one that another derivation produces by that
/// one and the output that it is, to any depth. Nothing else is a derivation.
pub proof fn law_derivations_are_known_by_their_paths(
    value: Json,
    r: Result<String, PushProfileError>,
    inner: Json,
    known: Result<String, PushProfileError>,
    output: Seq<char>,
)
    requires
        call_ensures(json_drv_path, (&value,), r),
        call_ensures(json_drv_path, (&inner,), known),
    ensures
        value matches Json::Text(path) ==> (r matches Ok(identity) && identity@
            == value->Text_0@),
        value.value().get("drvPath"@) == Some(inner.value()) && value.value().get("output"@)
            == Some(JsonValue::Text(output)) ==> {
            &&& r is Ok <==> known is Ok
            &&& r matches Ok(identity) ==> identity@ == known->Ok_0@ + "^"@ + output
        },
        value is Null || value is Bool || value is Number || value is Array ==> r matches Err(
            PushProfileError::BuildStdoutInvalidDerivation,
        ),
        value.value().get("drvPath"@) is None && !(value is Text) ==> r matches Err(
            PushProfileError::BuildStdoutInvalidDerivation,
        ),
{
}

/// The paths that `nix-build` printed are read back line by line, in order. They count
/// only where there is one for each derivation.
pub proof fn law_printed_paths_are_read_back(
    stdout: &[u8],
    expected: usize,
    r: Result<Vec<String>, PushProfileError>,
    lines: Seq<Seq<char>>,
)
    requires
        call_ensures(parse_build_out_paths, (stdout, expected), r),
        valid_utf8(stdout@),
        decode_utf8(stdout@) == ended_lines(lines),
        lines.len() > 0,
        forall|i: int|
            0 <= i < lines.len() ==> {
                &&& !(#[trigger] lines[i]).contains('\n')
                &&& lines[i].len() > 0
                &&& !is_space(lines[i][0])
                &&& !is_space(lines[i].last())
            },
    ensures
        r is Ok <==> lines.len() == expected,
        r matches Ok(paths) ==> texts(paths@) == lines,
        lines.len() != expected ==> (r matches Err(
            PushProfileError::BuildStdoutPathCount { actual, expected: wanted, paths },
        ) && actual == lines.len() && wanted == expected),
{
    let text = ended_lines(lines);
    let init = lines.drop_last();
    let last = lines.last();
    assert(lines[lines.len() - 1] == last);
    let body = ended_lines(init) + last;
    lemma_first_character(lines);
    assert(text =~= body + seq!['\n']);
    assert(body.last() == last.last());
    assert(text[0] == body[0]);
    law_trimmed_line(body, seq!['\n']);
    assert(trimmed(text) == body);
    lemma_lines_of_body(lines);
    assert(line_texts(body) == lines);
    assert(printed_paths(text) =~= lines) by {
        assert forall|i: int| 0 <= i < lines.len() implies trimmed(#[trigger] lines[i])
            == lines[i] by {
            law_trimmed_line(lines[i], Seq::empty());
            assert(lines[i] + Seq::<char>::empty() =~= lines[i]);
        }
    }
}

proof fn lemma_first_character(lines: Seq<Seq<char>>)
    requires
        lines.len() > 0,
        lines[0].len() > 0,
    ensures
        ended_lines(lines).len() > 0,
        ended_lines(lines)[0] == lines[0][0],
    decreases lines.len(),
{
    if lines.len() > 1 {
        lemma_first_character(lines.drop_last());
    } else {
        assert(ended_lines(lines.drop_last()) =~= Seq::<char>::empty());
        assert(ended_lines(lines) =~= lines[0] + seq!['\n']);
    }
}

proof fn lemma_lines_of_body(lines: Seq<Seq<char>>)
    requires
        lines.len() > 0,
        lines.last().len() > 0,
        forall|i: int| 0 <= i < lines.len() ==> !(#[trigger] lines[i]).contains('\n'),
    ensures
        line_texts(ended_lines(lines.drop_last()) + lines.last()) == lines,
{
    let body = ended_lines(lines.drop_last()) + lines.last();
    let text = ended_lines(lines);
    law_lines_are_read_back(lines);
    assert(text =~= body + seq!['\n']);
    assert(text.drop_last() =~= body);
    let all = pieces(text, '\n');
    let own = pieces(body, '\n');
    assert(all == own.push(Seq::empty()));
    assert(all.drop_last() =~= own);
    assert(own == lines);
}

/// A derivation that no path was reported for is named, and so is a result without
/// outputs; a result without a proper derivation is refused.
pub proof fn law_missing_paths_are_named(
    results: &[Json],
    derivations: &[&str],
    r: Result<Vec<String>, PushProfileError>,
    at: int,
)
    requires
        call_ensures(assign_outputs, (results, derivations), r),
        0 <= at < results@.len(),
    ensures
        results@[at].value().get("drvPath"@) is None ==> r is Err,
        results@[at].value().get("outputs"@) is None ==> r is Err,
        results@.len() == 1 && results@[0].value().get("drvPath"@) is None ==> r matches Err(
            PushProfileError::BuildStdoutInvalidDerivation,
        ),
        (results@.len() == 1 && (results@[0].value().get("drvPath"@) matches Some(
            JsonValue::Text(_),
        )) && results@[0].value().get("outputs"@) is None) ==> (r matches Err(
            PushProfileError::BuildStdoutMissingDerivation(d),
        ) && Some(JsonValue::Text(d@)) == results@[0].value().get("drvPath"@)),
        (r matches Err(PushProfileError::BuildStdoutMissingDerivation(d))) && realised_outputs(
            json_values(results@),
        ) is Ok ==> exists|i: int|
            0 <= i < derivations@.len() && (#[trigger] derivations@[i])@
                == r->Err_0->BuildStdoutMissingDerivation_0@,
{
    let values = json_values(results@);
    lemma_json_values(results@);
    lemma_realised_outputs(values);
    assert(values[at] == results@[at].value());
    if results@.len() == 1 {
        assert(values.drop_last() =~= Seq::empty());
        assert(realised_outputs(values.drop_last()) is Ok);
        assert(values.last() == results@[0].value());
    }
    if results@[at].value().get("drvPath"@) is None || results@[at].value().get("outputs"@)
        is None {
        assert(!(result_outputs(values[at]) is Ok));
    }
}

/// Output that cannot be read as paths is told apart: output that is no text, output that
/// is blank, and output with another number of lines.
pub proof fn law_unreadable_paths_are_told_apart(
    stdout: &[u8],
    expected: usize,
    r: Result<Vec<String>, PushProfileError>,
    text: Seq<char>,
)
    requires
        call_ensures(parse_build_out_paths, (stdout, expected), r),
        valid_utf8(stdout@) ==> text == decode_utf8(stdout@),
    ensures
        !valid_utf8(stdout@) ==> r is Err && r->Err_0 is BuildStdoutUtf8,
        valid_utf8(stdout@) && (forall|i: int| 0 <= i < text.len() ==> is_space(#[trigger] text[i]))
            ==> r is Err && r->Err_0 is BuildStdoutEmpty,
{
    if valid_utf8(stdout@) && (forall|i: int|
        0 <= i < text.len() ==> is_space(#[trigger] text[i])) {
        law_blank_text_has_no_word(text);
    }
}

} // verus!
