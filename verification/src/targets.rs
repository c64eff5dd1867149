//! Targets, as they are written on the command line.
use vstd::prelude::*;

use crate::deployment::DeployFlake;
use crate::text::{chars_of, opt_text, texts};

verus! {

/// Why a target is not understood.
#[derive(Debug, Clone, Copy, PartialEq, Eq, Structural)]
pub enum ParseFlakeError {
    /// More than a node and a profile are named.
    PathTooLong,
    /// A name is empty.
    EmptyName,
    /// A quote is never closed.
    UnterminatedQuote,
}

/// What is shown of a `ParseFlakeError`.
pub open spec fn parse_flake_error_text(e: ParseFlakeError) -> Seq<char> {
    match e {
        ParseFlakeError::PathTooLong =>
            "The given path was too long, did you mean to put something in quotes?"@,
        ParseFlakeError::EmptyName => "The given path holds an empty name"@,
        ParseFlakeError::UnterminatedQuote => "The given path holds an unterminated quote"@,
    }
}

impl ParseFlakeError {
    /// The message for this error.
    pub fn message(&self) -> (r: String)
        ensures
            r@ == parse_flake_error_text(*self),
    {
        match self {
            ParseFlakeError::PathTooLong => {
                "The given path was too long, did you mean to put something in quotes?".to_string()
            },
            ParseFlakeError::EmptyName => "The given path holds an empty name".to_string(),
            ParseFlakeError::UnterminatedQuote => {
                "The given path holds an unterminated quote".to_string()
            },
        }
    }
}

/// The names in `t`, with a dot between each two, after `names` and the beginning
/// `name` of one: a dot inside of double quotes belongs to a name. None where a
/// quote is not closed.
pub open spec fn names_from(
    t: Seq<char>,
    quoted: bool,
    name: Seq<char>,
    names: Seq<Seq<char>>,
) -> Option<Seq<Seq<char>>>
    decreases t.len(),
{
    if t.len() == 0 {
        if quoted {
            None
        } else {
            Some(names.push(name))
        }
    } else if t[0] == '"' {
        names_from(t.drop_first(), !quoted, name, names)
    } else if t[0] == '.' && !quoted {
        names_from(t.drop_first(), false, Seq::empty(), names.push(name))
    } else {
        names_from(t.drop_first(), quoted, name.push(t[0]), names)
    }
}

/// The names that a path of attributes is made of.
pub open spec fn path_names(path: Seq<char>) -> Option<Seq<Seq<char>>> {
    names_from(path, false, Seq::empty(), Seq::empty())
}

/// The node and the profile of it that a path of attributes names.
pub type Names = (Option<Seq<char>>, Option<Seq<char>>);

/// The node and the profile that a path of attributes names: none where it is
/// empty, and no profile where it is a single name.
pub open spec fn target_names(path: Seq<char>) -> Result<Names, ParseFlakeError> {
    if path.len() == 0 {
        Ok((None, None))
    } else {
        match path_names(path) {
            None => Err(ParseFlakeError::UnterminatedQuote),
            Some(names) => if names.len() > 2 {
                Err(ParseFlakeError::PathTooLong)
            } else if names[0].len() == 0 || names.last().len() == 0 {
                Err(ParseFlakeError::EmptyName)
            } else if names.len() == 2 {
                Ok((Some(names[0]), Some(names[1])))
            } else {
                Ok((Some(names[0]), None))
            },
        }
    }
}

/// The names that a path of attributes is made of.
fn read_names(path: &[char]) -> (r: Option<Vec<String>>)
    ensures
        match r {
            Some(names) => names@.len() > 0 && path_names(path@) == Some(texts(names@)),
            None => path_names(path@) is None,
        },
{
    let mut names: Vec<String> = Vec::new();
    let mut name = String::new();
    let mut quoted = false;
    let mut i: usize = 0;
    assert(path@.skip(0) =~= path@);
    assert(texts(names@) =~= Seq::empty());
    while i < path.len()
        invariant
            i <= path@.len(),
            path_names(path@) == names_from(path@.skip(i as int), quoted, name@, texts(names@)),
        decreases path@.len() - i,
    {
        let c = path[i];
        assert(path@.skip(i as int).drop_first() =~= path@.skip(i + 1));
        if c == '"' {
            quoted = !quoted;
        } else if c == '.' && !quoted {
            let ghost before = texts(names@);
            let ghost read = name@;
            names.push(name);
            name = String::new();
            assert(texts(names@) =~= before.push(read));
            assert(name@ =~= Seq::empty());
        } else {
            name.push(c);
        }
        i += 1;
    }
    if quoted {
        return None;
    }
    let ghost before = texts(names@);
    let ghost read = name@;
    names.push(name);
    assert(texts(names@) =~= before.push(read));
    Some(names)
}

/// The node and the profile that a path of attributes names.
fn read_target(path: &[char]) -> (r: Result<(Option<String>, Option<String>), ParseFlakeError>)
    ensures
        match r {
            Ok((node, profile)) => target_names(path@) == Ok::<_, ParseFlakeError>(
                (opt_text(node), opt_text(profile)),
            ),
            Err(e) => target_names(path@) == Err::<Names, _>(e),
        },
{
    if path.len() == 0 {
        return Ok((None, None));
    }
    let names = match read_names(path) {
        Some(names) => names,
        None => return Err(ParseFlakeError::UnterminatedQuote),
    };
    let n: usize = names.len();
    assert(texts(names@).len() == n);
    assert(texts(names@)[0] == names@[0]@);
    assert(texts(names@).last() == names@[n - 1]@);
    if n > 2 {
        return Err(ParseFlakeError::PathTooLong);
    }
    if names[0].as_str().is_empty() || names[n - 1].as_str().is_empty() {
        return Err(ParseFlakeError::EmptyName);
    }
    if n == 2 {
        Ok((Some(names[0].clone()), Some(names[1].clone())))
    } else {
        Ok((Some(names[0].clone()), None))
    }
}

/// The position of the first `#`, or the length where there is none.
pub open spec fn hash_position(t: Seq<char>) -> int
    decreases t.len(),
{
    if t.len() == 0 || t[0] == '#' {
        0
    } else {
        1 + hash_position(t.drop_first())
    }
}

/// The flake of a target: what stands before the first `#`.
pub open spec fn flake_part(t: Seq<char>) -> Seq<char> {
    t.take(hash_position(t))
}

/// The path of attributes of a target: what stands behind the first `#`.
pub open spec fn path_part(t: Seq<char>) -> Seq<char> {
    if hash_position(t) < t.len() {
        t.skip(hash_position(t) + 1)
    } else {
        Seq::empty()
    }
}

/// Reads a target such as `flake#node.profile`.
pub fn parse_flake<'a>(flake: &'a str) -> (r: Result<DeployFlake<'a>, ParseFlakeError>)
    ensures
        match r {
            Ok(target) => {
                &&& target.repo@ == flake_part(flake@)
                &&& target_names(path_part(flake@)) == Ok::<_, ParseFlakeError>(
                    (opt_text(target.node), opt_text(target.profile)),
                )
            },
            Err(e) => target_names(path_part(flake@)) == Err::<Names, _>(e),
        },
{
    let chars = chars_of(flake);
    let mut i: usize = 0;
    assert(chars@.skip(0) =~= chars@);
    while i < chars.len() && chars[i] != '#'
        invariant
            i <= chars@.len(),
            hash_position(chars@) == i + hash_position(chars@.skip(i as int)),
        decreases chars@.len() - i,
    {
        assert(chars@.skip(i as int).drop_first() =~= chars@.skip(i + 1));
        i += 1;
    }
    assert(hash_position(chars@) == i);
    let repo = flake.substring_char(0, i);
    assert(repo@ =~= flake_part(flake@));
    let mut path: Vec<char> = Vec::new();
    if i < chars.len() {
        let mut k: usize = i + 1;
        assert(chars@.subrange(i + 1, i + 1) =~= Seq::empty());
        while k < chars.len()
            invariant
                i < k <= chars@.len(),
                path@ == chars@.subrange(i + 1, k as int),
            decreases chars@.len() - k,
        {
            path.push(chars[k]);
            assert(path@ =~= chars@.subrange(i + 1, k + 1));
            k += 1;
        }
    }
    assert(path@ =~= path_part(flake@));
    match read_target(path.as_slice()) {
        Ok((node, profile)) => Ok(DeployFlake { repo, node, profile }),
        Err(e) => Err(e),
    }
}

/// Reads a target such as `node.profile` in a file.
pub fn parse_file<'a>(file: &'a str, attribute: &str) -> (r: Result<
    DeployFlake<'a>,
    ParseFlakeError,
>)
    ensures
        match r {
            Ok(target) => {
                &&& target.repo == file
                &&& target_names(attribute@) == Ok::<_, ParseFlakeError>(
                    (opt_text(target.node), opt_text(target.profile)),
                )
            },
            Err(e) => target_names(attribute@) == Err::<Names, _>(e),
        },
{
    match read_target(chars_of(attribute).as_slice()) {
        Ok((node, profile)) => Ok(DeployFlake { repo: file, node, profile }),
        Err(e) => Err(e),
    }
}

/// What stands inside of double quotes belongs to a name, dots included.
proof fn lemma_quoted_name(
    text: Seq<char>,
    rest: Seq<char>,
    name: Seq<char>,
    names: Seq<Seq<char>>,
)
    requires
        !text.contains('"'),
    ensures
        names_from(text + rest, true, name, names) == names_from(rest, true, name + text, names),
    decreases text.len(),
{
    if text.len() == 0 {
        assert(text + rest =~= rest);
        assert(name + text =~= name);
    } else {
        let all = text + rest;
        let tail = text.drop_first();
        assert(text.contains(text[0]));
        assert forall|i: int| 0 <= i < tail.len() implies tail[i] != '"' by {
            assert(text.contains(text[i + 1]));
        }
        assert(all.drop_first() =~= tail + rest);
        lemma_quoted_name(tail, rest, name.push(text[0]), names);
        assert(name.push(text[0]) + tail =~= name + text);
    }
}

/// A name in double quotes is read as it is.
proof fn lemma_quotes_are_taken_off(text: Seq<char>, rest: Seq<char>, names: Seq<Seq<char>>)
    requires
        !text.contains('"'),
    ensures
        names_from(seq!['"'] + text + seq!['"'] + rest, false, Seq::empty(), names) == names_from(
            rest,
            false,
            text,
            names,
        ),
{
    let all = seq!['"'] + text + seq!['"'] + rest;
    let inner = seq!['"'] + rest;
    assert(all.drop_first() =~= text + inner);
    lemma_quoted_name(text, inner, Seq::empty(), names);
    assert(Seq::<char>::empty() + text =~= text);
    assert(inner.drop_first() =~= rest);
}

/// A node and a profile that are named in double quotes are read back, whatever
/// else than double quotes their names hold.
pub proof fn law_quoted_names_are_read_back(node: Seq<char>, profile: Seq<char>)
    requires
        node.len() > 0,
        profile.len() > 0,
        !node.contains('"'),
        !profile.contains('"'),
    ensures
        target_names(seq!['"'] + node + seq!['"', '.', '"'] + profile + seq!['"']) == Ok::<
            Names,
            ParseFlakeError,
        >((Some(node), Some(profile))),
        target_names(seq!['"'] + node + seq!['"']) == Ok::<Names, ParseFlakeError>(
            (Some(node), None),
        ),
{
    let empty = Seq::<Seq<char>>::empty();
    let one = seq!['"'] + node + seq!['"'];
    lemma_quotes_are_taken_off(node, Seq::empty(), empty);
    assert(one + Seq::<char>::empty() =~= one);
    let second = seq!['"'] + profile + seq!['"'];
    let both = seq!['"'] + node + seq!['"', '.', '"'] + profile + seq!['"'];
    let rest = seq!['.'] + second;
    assert(both =~= one + rest);
    lemma_quotes_are_taken_off(node, rest, empty);
    assert(rest.drop_first() =~= second);
    let first = empty.push(node);
    lemma_quotes_are_taken_off(profile, Seq::empty(), first);
    assert(second + Seq::<char>::empty() =~= second);
}

/// A name that needs no quotes: one without dots and quotes.
pub open spec fn is_plain_name(name: Seq<char>) -> bool {
    name.len() > 0 && !name.contains('.') && !name.contains('"')
}

proof fn lemma_plain_name(text: Seq<char>, rest: Seq<char>, name: Seq<char>, names: Seq<Seq<char>>)
    requires
        !text.contains('.'),
        !text.contains('"'),
    ensures
        names_from(text + rest, false, name, names) == names_from(rest, false, name + text, names),
    decreases text.len(),
{
    if text.len() == 0 {
        assert(text + rest =~= rest);
        assert(name + text =~= name);
    } else {
        let all = text + rest;
        let tail = text.drop_first();
        assert(text.contains(text[0]));
        assert forall|i: int| 0 <= i < tail.len() implies tail[i] != '"' && tail[i] != '.' by {
            assert(text.contains(text[i + 1]));
        }
        assert(all.drop_first() =~= tail + rest);
        lemma_plain_name(tail, rest, name.push(text[0]), names);
        assert(name.push(text[0]) + tail =~= name + text);
    }
}

proof fn lemma_named(node: Seq<char>, profile: Seq<char>, third: Seq<char>)
    requires
        is_plain_name(node),
        is_plain_name(profile),
        is_plain_name(third),
    ensures
        target_names(node) == Ok::<Names, ParseFlakeError>((Some(node), None)),
        target_names(node + seq!['.'] + profile) == Ok::<Names, ParseFlakeError>(
            (Some(node), Some(profile)),
        ),
        target_names(node + seq!['.'] + profile + seq!['.'] + third) == Err::<Names, _>(
            ParseFlakeError::PathTooLong,
        ),
        target_names(node + seq!['.']) == Err::<Names, _>(ParseFlakeError::EmptyName),
        target_names(seq!['.'] + profile) == Err::<Names, _>(ParseFlakeError::EmptyName),
{
    let none = Seq::<Seq<char>>::empty();
    let end = Seq::<char>::empty();
    assert(end + node =~= node);
    assert(end + profile =~= profile);
    assert(end + third =~= third);
    lemma_plain_name(node, end, end, none);
    assert(node + end =~= node);
    let dot = seq!['.'];
    let two = dot + profile;
    let three = two + dot + third;
    lemma_plain_name(node, two, end, none);
    assert(node + two =~= node + dot + profile);
    assert(two.drop_first() =~= profile + end);
    let one = none.push(node);
    lemma_plain_name(profile, end, end, one);
    lemma_plain_name(node, three, end, none);
    assert(node + three =~= node + dot + profile + dot + third);
    let last = dot + third;
    assert(three.drop_first() =~= profile + last);
    lemma_plain_name(profile, last, end, one);
    assert(last.drop_first() =~= third + end);
    lemma_plain_name(third, end, end, one.push(profile));
    assert(names_from(end, false, third, one.push(profile)) == Some(one.push(profile).push(third)));
    lemma_plain_name(node, dot, end, none);
    assert(dot.drop_first() =~= end);
    assert(names_from(end, false, end, one) == Some(one.push(end)));
    lemma_plain_name(profile, end, end, none.push(end));
    assert(names_from(end, false, profile, none.push(end)) == Some(none.push(end).push(profile)));
    assert(none.push(end).push(profile)[0] == end);
}

proof fn lemma_hash(repo: Seq<char>, path: Seq<char>)
    requires
        !repo.contains('#'),
    ensures
        flake_part(repo + seq!['#'] + path) == repo,
        path_part(repo + seq!['#'] + path) == path,
        flake_part(repo) == repo,
        path_part(repo) == Seq::<char>::empty(),
{
    lemma_hash_position(repo, seq!['#'] + path);
    lemma_hash_position(repo, Seq::empty());
    let t = repo + seq!['#'] + path;
    assert(t =~= repo + (seq!['#'] + path));
    assert(hash_position(seq!['#'] + path) == 0);
    assert(hash_position(Seq::<char>::empty()) == 0);
    assert(t.take(repo.len() as int) =~= repo);
    assert(t.skip(repo.len() as int + 1) =~= path);
    assert(repo + Seq::<char>::empty() =~= repo);
    assert(repo.take(repo.len() as int) =~= repo);
}

proof fn lemma_hash_position(repo: Seq<char>, rest: Seq<char>)
    requires
        !repo.contains('#'),
    ensures
        hash_position(repo + rest) == repo.len() + hash_position(rest),
    decreases repo.len(),
{
    if repo.len() == 0 {
        assert(repo + rest =~= rest);
    } else {
        let tail = repo.drop_first();
        assert(repo.contains(repo[0]));
        assert forall|i: int| 0 <= i < tail.len() implies tail[i] != '#' by {
            assert(repo.contains(repo[i + 1]));
        }
        assert((repo + rest).drop_first() =~= tail + rest);
        lemma_hash_position(tail, rest);
    }
}

/// A target is read as what it is written as: the flake before the first `#`, and
/// behind it the node and the profile with a dot between them. Both can be left out,
/// and the profile alone; more than two names, and empty ones, are refused.
pub proof fn law_targets_are_read_as_written(
    flake: &str,
    r: Result<DeployFlake<'_>, ParseFlakeError>,
    repo: Seq<char>,
    node: Seq<char>,
    profile: Seq<char>,
    third: Seq<char>,
)
    requires
        call_ensures(parse_flake, (flake,), r),
        !repo.contains('#'),
        is_plain_name(node),
        is_plain_name(profile),
        is_plain_name(third),
    ensures
        flake@ == repo || flake@ == repo + seq!['#'] ==> r is Ok && r->Ok_0.repo@ == repo
            && r->Ok_0.node is None && r->Ok_0.profile is None,
        flake@ == repo + seq!['#'] + node ==> r is Ok && r->Ok_0.repo@ == repo && opt_text(
            r->Ok_0.node,
        ) == Some(node) && r->Ok_0.profile is None,
        flake@ == repo + seq!['#'] + (node + seq!['.'] + profile) ==> r is Ok && r->Ok_0.repo@
            == repo && opt_text(r->Ok_0.node) == Some(node) && opt_text(r->Ok_0.profile) == Some(
            profile,
        ),
        flake@ == repo + seq!['#'] + (node + seq!['.'] + profile + seq!['.'] + third) ==> r
            matches Err(ParseFlakeError::PathTooLong),
        flake@ == repo + seq!['#'] + (node + seq!['.']) ==> r matches Err(
            ParseFlakeError::EmptyName,
        ),
        flake@ == repo + seq!['#'] + (seq!['.'] + profile) ==> r matches Err(
            ParseFlakeError::EmptyName,
        ),
{
    let end = Seq::<char>::empty();
    lemma_named(node, profile, third);
    lemma_hash(repo, end);
    assert(repo + seq!['#'] + end =~= repo + seq!['#']);
    lemma_hash(repo, node);
    lemma_hash(repo, node + seq!['.'] + profile);
    lemma_hash(repo, node + seq!['.'] + profile + seq!['.'] + third);
    lemma_hash(repo, node + seq!['.']);
    lemma_hash(repo, seq!['.'] + profile);
}

/// A target in a file is read as the names in a flake are, and is about that file.
pub proof fn law_targets_in_files_are_read_alike(
    file: &str,
    attribute: &str,
    flake: &str,
    repo: Seq<char>,
    in_file: Result<DeployFlake<'_>, ParseFlakeError>,
    in_flake: Result<DeployFlake<'_>, ParseFlakeError>,
)
    requires
        call_ensures(parse_file, (file, attribute), in_file),
        call_ensures(parse_flake, (flake,), in_flake),
        !repo.contains('#'),
        flake@ == repo + seq!['#'] + attribute@,
    ensures
        in_file is Ok <==> in_flake is Ok,
        in_file is Err ==> in_file->Err_0 == in_flake->Err_0,
        in_file is Ok ==> {
            &&& in_file->Ok_0.repo@ == file@
            &&& opt_text(in_file->Ok_0.node) == opt_text(in_flake->Ok_0.node)
            &&& opt_text(in_file->Ok_0.profile) == opt_text(in_flake->Ok_0.profile)
        },
{
    lemma_hash(repo, attribute@);
}

/// A quote that is not closed is refused, wherever it is opened behind the `#`.
pub proof fn law_open_quotes_are_refused(
    flake: &str,
    r: Result<DeployFlake<'_>, ParseFlakeError>,
    repo: Seq<char>,
    name: Seq<char>,
    text: Seq<char>,
)
    requires
        call_ensures(parse_flake, (flake,), r),
        !repo.contains('#'),
        is_plain_name(name),
        !text.contains('"'),
    ensures
        flake@ == repo + seq!['#'] + (seq!['"'] + text) ==> r matches Err(
            ParseFlakeError::UnterminatedQuote,
        ),
        flake@ == repo + seq!['#'] + (name + (seq!['"'] + text)) ==> r matches Err(
            ParseFlakeError::UnterminatedQuote,
        ),
{
    let nothing = Seq::<char>::empty();
    let none = Seq::<Seq<char>>::empty();
    let open = seq!['"'] + text;
    lemma_hash(repo, open);
    lemma_hash(repo, name + open);
    assert(open.drop_first() =~= text);
    assert(text + nothing =~= text);
    lemma_quoted_name(text, nothing, nothing, none);
    lemma_quoted_name(text, nothing, name, none);
    lemma_plain_name(name, open, nothing, none);
    assert(nothing + name =~= name);
    assert(names_from(open, false, name, none) is None);
    assert(names_from(open, false, nothing, none) is None);
}

} // verus!
