//! Searching a text for the lines that hold a pattern.
//!
//! A line that holds the pattern is filed under a place: the number of lines
//! that begin before the spot where the line's text first stands in the
//! contents, and the offset in the line at which the pattern first stands.

use crate::matches::Matches;
use crate::text::{
    contains, count_lines, find, find_bytes, lemma_find_from_is_first, lemma_newline_from, lines,
    occurs_at, split_lines,
};
use vstd::prelude::*;
use vstd::slice::slice_subrange;
use vstd::string::StringSliceAdditionalSpecFns;
use vstd::utf8::{decode_utf8, encode_utf8};

verus! {

broadcast use vstd::seq::group_seq_axioms;

/// The number of lines that begin before the spot where `line` first stands
/// in `contents`.
pub open spec fn line_number(contents: Seq<u8>, line: Seq<u8>) -> int {
    match find(contents, line) {
        Some(at) => lines(contents.subrange(0, at)).len() as int,
        None => 0,
    }
}

/// The place under which a line is filed: `shown` is the line as it stands in
/// the contents, `probed` the text in which the pattern is looked for.
pub open spec fn place_of(contents: Seq<u8>, shown: Seq<u8>, probed: Seq<u8>, pattern: Seq<u8>) -> (
    usize,
    usize,
) {
    (line_number(contents, shown) as usize, find(probed, pattern).unwrap_or(0) as usize)
}

/// The hits among the first `n` lines: going through them in order, every
/// line whose probed text holds the pattern is filed under its place, where
/// it replaces a line filed there before.
pub open spec fn hits_among(
    contents: Seq<u8>,
    shown: Seq<Seq<u8>>,
    probed: Seq<Seq<u8>>,
    pattern: Seq<u8>,
    n: int,
) -> Map<(usize, usize), Seq<char>>
    decreases n,
{
    if n <= 0 {
        Map::empty()
    } else {
        let before = hits_among(contents, shown, probed, pattern, n - 1);
        if contains(probed[n - 1], pattern) {
            before.insert(
                place_of(contents, shown[n - 1], probed[n - 1], pattern),
                decode_utf8(shown[n - 1]),
            )
        } else {
            before
        }
    }
}

/// What a search for `pattern` as it is written finds in `contents`.
pub open spec fn sensitive_hits(pattern: Seq<u8>, contents: Seq<u8>) -> Map<
    (usize, usize),
    Seq<char>,
> {
    hits_among(contents, lines(contents), lines(contents), pattern, lines(contents).len() as int)
}

/// What a search finds in `contents` when the pattern is looked for in
/// `folded_lines`, which stand line by line for the lines of the contents.
pub open spec fn folded_hits(
    folded_pattern: Seq<u8>,
    contents: Seq<u8>,
    folded_lines: Seq<Seq<u8>>,
) -> Map<(usize, usize), Seq<char>> {
    hits_among(
        contents,
        lines(contents),
        folded_lines,
        folded_pattern,
        lines(contents).len() as int,
    )
}

/// The bytes of each text of a list.
pub open spec fn bytes_of(texts: Seq<&str>) -> Seq<Seq<u8>> {
    Seq::new(texts.len(), |i: int| texts[i].spec_bytes())
}

/// Every line of a text stands somewhere in that text.
pub proof fn lemma_line_occurs(text: Seq<u8>, i: int)
    requires
        0 <= i < lines(text).len(),
    ensures
        contains(text, lines(text)[i]),
    decreases text.len(),
{
    lemma_newline_from(text, 0);
    let n = crate::text::newline_from(text, 0);
    if i == 0 {
        let line = lines(text)[0];
        assert(text.subrange(0, line.len() as int) =~= line);
        assert(occurs_at(text, line, 0));
    } else {
        let rest = crate::text::after_first_line(text);
        lemma_line_occurs(rest, i - 1);
        let line = lines(rest)[i - 1];
        assert(lines(text)[i] == line);
        lemma_find_from_is_first(rest, line, 0);
        let at = find(rest, line)->0;
        assert(occurs_at(rest, line, at));
        assert(text.subrange(n + 1 + at, n + 1 + at + line.len()) =~= rest.subrange(
            at,
            at + line.len(),
        ));
        assert(occurs_at(text, line, n + 1 + at));
    }
    lemma_find_from_is_first(text, lines(text)[i], 0);
}

/// Whatever is filed among the first `n` lines is one of those lines, holds
/// the pattern, and stands under its own place.
pub proof fn lemma_hits_are_matching_lines(
    contents: Seq<u8>,
    shown: Seq<Seq<u8>>,
    probed: Seq<Seq<u8>>,
    pattern: Seq<u8>,
    n: int,
    key: (usize, usize),
)
    requires
        hits_among(contents, shown, probed, pattern, n).dom().contains(key),
    ensures
        exists|i: int|
            {
                &&& 0 <= i < n
                &&& contains(#[trigger] probed[i], pattern)
                &&& key == place_of(contents, shown[i], probed[i], pattern)
                &&& hits_among(contents, shown, probed, pattern, n)[key] == decode_utf8(shown[i])
            },
    decreases n,
{
    if n > 0 {
        let before = hits_among(contents, shown, probed, pattern, n - 1);
        if contains(probed[n - 1], pattern) && key == place_of(
            contents,
            shown[n - 1],
            probed[n - 1],
            pattern,
        ) {
            assert(contains(probed[n - 1], pattern));
        } else {
            assert(before.dom().contains(key));
            lemma_hits_are_matching_lines(contents, shown, probed, pattern, n - 1, key);
            let i = choose|i: int|
                {
                    &&& 0 <= i < n - 1
                    &&& contains(#[trigger] probed[i], pattern)
                    &&& key == place_of(contents, shown[i], probed[i], pattern)
                    &&& before[key] == decode_utf8(shown[i])
                };
            assert(contains(probed[i], pattern));
        }
    }
}

/// Every one of the first `n` lines that holds the pattern has its place
/// among the hits.
pub proof fn lemma_matching_lines_are_filed(
    contents: Seq<u8>,
    shown: Seq<Seq<u8>>,
    probed: Seq<Seq<u8>>,
    pattern: Seq<u8>,
    n: int,
    i: int,
)
    requires
        0 <= i < n,
        contains(probed[i], pattern),
    ensures
        hits_among(contents, shown, probed, pattern, n).dom().contains(
            place_of(contents, shown[i], probed[i], pattern),
        ),
    decreases n,
{
    if i < n - 1 {
        lemma_matching_lines_are_filed(contents, shown, probed, pattern, n - 1, i);
    }
}

/// A search for a pattern as it is written finds lines of the contents that
/// hold the pattern, and nothing else: what stands under a place is a line
/// that holds the pattern, and the column of the place is the offset at
/// which the pattern first stands in that line.
pub proof fn law_hits_are_lines_with_the_pattern(
    pattern: Seq<u8>,
    contents: Seq<u8>,
    key: (usize, usize),
)
    requires
        contents.len() <= usize::MAX,
        sensitive_hits(pattern, contents).dom().contains(key),
    ensures
        exists|i: int|
            {
                &&& 0 <= i < lines(contents).len()
                &&& contains(#[trigger] lines(contents)[i], pattern)
                &&& sensitive_hits(pattern, contents)[key] == decode_utf8(lines(contents)[i])
                &&& key.0 == line_number(contents, lines(contents)[i])
                &&& key.1 == find(lines(contents)[i], pattern)->0
            },
{
    let all = lines(contents);
    lemma_hits_are_matching_lines(contents, all, all, pattern, all.len() as int, key);
    let i = choose|i: int|
        {
            &&& 0 <= i < all.len()
            &&& contains(#[trigger] all[i], pattern)
            &&& key == place_of(contents, all[i], all[i], pattern)
            &&& sensitive_hits(pattern, contents)[key] == decode_utf8(all[i])
        };
    lemma_place_fits(contents, i, pattern);
    assert(contains(lines(contents)[i], pattern));
}

/// The place of a line of the contents that holds the pattern is told
/// without loss: both its numbers are at most the length of the contents.
pub proof fn lemma_place_fits(contents: Seq<u8>, i: int, pattern: Seq<u8>)
    requires
        0 <= i < lines(contents).len(),
        contains(lines(contents)[i], pattern),
    ensures
        0 <= line_number(contents, lines(contents)[i]) <= contents.len(),
        0 <= find(lines(contents)[i], pattern)->0 <= contents.len(),
{
    let line = lines(contents)[i];
    lemma_line_occurs(contents, i);
    lemma_find_from_is_first(contents, line, 0);
    lemma_find_from_is_first(line, pattern, 0);
    let at = find(contents, line)->0;
    crate::text::lemma_lines_len(contents.subrange(0, at));
}

/// A search for a pattern as it is written passes over no line that holds
/// it: every such line has its place among the hits.
pub proof fn law_lines_with_the_pattern_are_hit(pattern: Seq<u8>, contents: Seq<u8>, i: int)
    requires
        0 <= i < lines(contents).len(),
        contains(lines(contents)[i], pattern),
    ensures
        sensitive_hits(pattern, contents).dom().contains(
            place_of(contents, lines(contents)[i], lines(contents)[i], pattern),
        ),
{
    let all = lines(contents);
    lemma_matching_lines_are_filed(contents, all, all, pattern, all.len() as int, i);
}

/// Files every line whose probed text holds the pattern under its place.
fn collect_hits(contents: &str, shown: &Vec<&str>, probed: &Vec<&str>, pattern: &str) -> (res:
    Matches)
    requires
        shown@.len() == probed@.len(),
        forall|i: int|
            0 <= i < shown@.len() ==> contains(
                contents.spec_bytes(),
                (#[trigger] shown@[i]).spec_bytes(),
            ),
    ensures
        res.wf(),
        res@ == hits_among(
            contents.spec_bytes(),
            bytes_of(shown@),
            bytes_of(probed@),
            pattern.spec_bytes(),
            shown@.len() as int,
        ),
{
    let whole = contents.as_bytes();
    let needle = pattern.as_bytes();
    let mut res = Matches::new();
    let mut i: usize = 0;
    while i < shown.len()
        invariant
            i <= shown@.len(),
            shown@.len() == probed@.len(),
            whole@ == contents.spec_bytes(),
            needle@ == pattern.spec_bytes(),
            forall|i: int|
                0 <= i < shown@.len() ==> contains(
                    contents.spec_bytes(),
                    (#[trigger] shown@[i]).spec_bytes(),
                ),
            res.wf(),
            res@ == hits_among(
                contents.spec_bytes(),
                bytes_of(shown@),
                bytes_of(probed@),
                pattern.spec_bytes(),
                i as int,
            ),
        decreases shown@.len() - i,
    {
        let line: &str = shown[i];
        let probe: &str = probed[i];
        assert(bytes_of(shown@)[i as int] == line.spec_bytes());
        assert(bytes_of(probed@)[i as int] == probe.spec_bytes());
        if let Some(column) = find_bytes(probe.as_bytes(), needle) {
            if let Some(at) = find_bytes(whole, line.as_bytes()) {
                proof {
                    lemma_find_from_is_first(whole@, line.spec_bytes(), 0);
                    vstd::utf8::encode_utf8_decode_utf8(line@);
                }
                let number = count_lines(slice_subrange(whole, 0, at));
                res.insert(number, column, line.to_owned());
            }
        }
        i += 1;
    }
    res
}

/// Finds the lines of `contents` that hold `pattern` as it is written.
pub fn search_case_sensitive(pattern: &str, contents: &str) -> (res: Matches)
    ensures
        res.wf(),
        res@ == sensitive_hits(pattern.spec_bytes(), contents.spec_bytes()),
{
    let shown = split_lines(contents);
    proof {
        assert(bytes_of(shown@) =~= lines(contents.spec_bytes()));
        assert forall|i: int| 0 <= i < shown@.len() implies contains(
            contents.spec_bytes(),
            (#[trigger] shown@[i]).spec_bytes(),
        ) by {
            lemma_line_occurs(contents.spec_bytes(), i);
        }
    }
    collect_hits(contents, &shown, &shown, pattern)
}

/// The lower-case form of a text, as the standard library's Unicode tables
/// give it.
pub uninterp spec fn lowercase_of(text: Seq<char>) -> Seq<char>;

/// `str::to_lowercase`: the result is the lower-case form of the argument, a
/// function of its characters alone. Nothing is proved of that form; it is
/// only given its name.
#[verifier::external_body]
fn lowercase(text: &str) -> (res: String)
    ensures
        res@ == lowercase_of(text@),
{
    text.to_lowercase()
}

/// The bytes of the lower-case form of the text that `line` encodes.
pub open spec fn fold_line(line: Seq<u8>) -> Seq<u8> {
    encode_utf8(lowercase_of(decode_utf8(line)))
}

/// What a search for `pattern` finds in `contents` when case is ignored: the
/// lower-case form of the pattern is looked for in the lower-case form of
/// each line.
pub open spec fn insensitive_hits(pattern: Seq<char>, contents: Seq<u8>) -> Map<
    (usize, usize),
    Seq<char>,
> {
    folded_hits(
        encode_utf8(lowercase_of(pattern)),
        contents,
        Seq::new(lines(contents).len(), |i: int| fold_line(lines(contents)[i])),
    )
}

/// Finds the lines of `contents` whose stand-in among `folded_lines` holds
/// `folded_pattern`. There must be one stand-in for each line of the
/// contents; otherwise nothing is searched.
pub fn search_folded(folded_pattern: &str, contents: &str, folded_lines: &Vec<String>) -> (res:
    Option<Matches>)
    ensures
        res is Some <==> folded_lines@.len() == lines(contents.spec_bytes()).len(),
        res matches Some(found) ==> found.wf() && found@ == folded_hits(
            folded_pattern.spec_bytes(),
            contents.spec_bytes(),
            Seq::new(folded_lines@.len(), |i: int| encode_utf8(folded_lines@[i]@)),
        ),
{
    let shown = split_lines(contents);
    if folded_lines.len() != shown.len() {
        return None;
    }
    let mut probed: Vec<&str> = Vec::new();
    let mut i: usize = 0;
    while i < folded_lines.len()
        invariant
            i <= folded_lines@.len(),
            probed@.len() == i,
            forall|j: int| 0 <= j < i ==> (#[trigger] probed@[j])@ == folded_lines@[j]@,
        decreases folded_lines@.len() - i,
    {
        probed.push(folded_lines[i].as_str());
        i += 1;
    }
    proof {
        assert(bytes_of(shown@) =~= lines(contents.spec_bytes()));
        assert(bytes_of(probed@) =~= Seq::new(
            folded_lines@.len(),
            |i: int| encode_utf8(folded_lines@[i]@),
        ));
        assert forall|i: int| 0 <= i < shown@.len() implies contains(
            contents.spec_bytes(),
            (#[trigger] shown@[i]).spec_bytes(),
        ) by {
            lemma_line_occurs(contents.spec_bytes(), i);
        }
    }
    Some(collect_hits(contents, &shown, &probed, folded_pattern))
}

/// Finds the lines of `contents` that hold `pattern`, ignoring case.
pub fn search_case_insensitive(pattern: &str, contents: &str) -> (res: Matches)
    ensures
        res.wf(),
        res@ == insensitive_hits(pattern@, contents.spec_bytes()),
{
    let shown = split_lines(contents);
    let folded_pattern = lowercase(pattern);
    let mut folded_lines: Vec<String> = Vec::new();
    let mut i: usize = 0;
    while i < shown.len()
        invariant
            i <= shown@.len(),
            folded_lines@.len() == i,
            forall|j: int|
                0 <= j < i ==> (#[trigger] folded_lines@[j])@ == lowercase_of(shown@[j]@),
        decreases shown@.len() - i,
    {
        folded_lines.push(lowercase(shown[i]));
        i += 1;
    }
    proof {
        let c = contents.spec_bytes();
        assert forall|j: int| 0 <= j < shown@.len() implies encode_utf8(
            #[trigger] folded_lines@[j]@,
        ) == fold_line(lines(c)[j]) by {
            vstd::utf8::encode_utf8_decode_utf8(shown@[j]@);
            assert(shown@[j].spec_bytes() == lines(c)[j]);
        }
        assert(Seq::new(folded_lines@.len(), |i: int| encode_utf8(folded_lines@[i]@)) =~= Seq::new(
            lines(c).len(),
            |i: int| fold_line(lines(c)[i]),
        ));
    }
    match search_folded(folded_pattern.as_str(), contents, &folded_lines) {
        Some(found) => found,
        None => Matches::new(),
    }
}

/// What a search is to do.
pub struct Config {
    pub file_path: String,
    pub pattern: String,
    pub case_insensitive: bool,
}

/// What is to be shown to the user when the arguments are refused.
#[derive(Clone, Copy, Debug, PartialEq, Eq, Structural)]
pub enum Notice {
    /// The help text.
    Help,
    /// The version.
    Version,
}

/// Why the arguments were refused, and what to show the user.
pub struct Refusal {
    pub notice: Notice,
    pub message: &'static str,
}

/// The version that [`Notice::Version`] stands for.
pub const VERSION: &'static str = "0.0.1";

pub const NO_ARGUMENTS: &'static str = "No arguments parsed.";

pub const INVALID_ARGUMENT: &'static str = "Invalid argument or too few arguments.";

pub const TOO_FEW_ARGUMENTS: &'static str = "Too few arguments.";

pub const TOO_MANY_ARGUMENTS: &'static str = "Too many arguments.";

/// Whether the variable that switches case off is set to do so: it is when
/// its value is `1`.
pub open spec fn switched_on(variable: Option<&str>) -> bool {
    match variable {
        Some(value) => value@ == "1"@,
        None => false,
    }
}

/// Whether `arg` asks for the help text.
pub open spec fn asks_for_help(arg: Seq<char>) -> bool {
    arg == "-h"@ || arg == "--help"@
}

/// Whether `arg` asks for the version.
pub open spec fn asks_for_version(arg: Seq<char>) -> bool {
    arg == "--version"@
}

/// Whether `arg` asks for the help text.
pub fn is_help_flag(arg: &str) -> (res: bool)
    ensures
        res == asks_for_help(arg@),
{
    crate::text::same_text(arg, "-h") || crate::text::same_text(arg, "--help")
}

/// Whether `arg` asks for the version.
pub fn is_version_flag(arg: &str) -> (res: bool)
    ensures
        res == asks_for_version(arg@),
{
    crate::text::same_text(arg, "--version")
}

/// Whether the variable that switches case off is set to do so.
pub fn is_switched_on(variable: Option<&str>) -> (res: bool)
    ensures
        res == switched_on(variable),
{
    match variable {
        Some(value) => crate::text::same_text(value, "1"),
        None => false,
    }
}

/// The message with which arguments that are not exactly two are refused.
pub open spec fn message_for(args: Seq<String>) -> Seq<char> {
    if args.len() == 1 {
        NO_ARGUMENTS@
    } else if args.len() != 2 {
        TOO_MANY_ARGUMENTS@
    } else if asks_for_help(args[1]@) || asks_for_version(args[1]@) {
        TOO_FEW_ARGUMENTS@
    } else {
        INVALID_ARGUMENT@
    }
}

/// What is shown when arguments are refused: the version where the single
/// argument asks for it, the help text in every other case.
pub open spec fn notice_for(args: Seq<String>) -> Notice {
    if args.len() == 2 && asks_for_version(args[1]@) && !asks_for_help(args[1]@) {
        Notice::Version
    } else {
        Notice::Help
    }
}

impl Config {
    /// Reads the program's arguments, the program's own name first: the
    /// file to search, then the pattern. `variable` is the value of the
    /// variable that switches case off, if it is set.
    ///
    /// Anything but exactly two arguments is refused, with the message that
    /// fits and the notice to show; a single argument may ask for the help
    /// text or for the version, and is refused all the same.
    pub fn new(args: &Vec<String>, variable: Option<&str>) -> (res: Result<Config, Refusal>)
        ensures
            match res {
                Ok(config) => {
                    &&& args@.len() == 3
                    &&& config.file_path@ == args@[1]@
                    &&& config.pattern@ == args@[2]@
                    &&& config.case_insensitive == switched_on(variable)
                },
                Err(refusal) => {
                    &&& args@.len() != 3
                    &&& refusal.message@ == message_for(args@)
                    &&& refusal.notice == notice_for(args@)
                },
            },
    {
        if args.len() == 1 {
            return Err(Refusal { notice: Notice::Help, message: NO_ARGUMENTS });
        }
        if args.len() == 2 {
            let arg = args[1].as_str();
            if is_help_flag(arg) {
                return Err(Refusal { notice: Notice::Help, message: TOO_FEW_ARGUMENTS });
            }
            if is_version_flag(arg) {
                return Err(Refusal { notice: Notice::Version, message: TOO_FEW_ARGUMENTS });
            }
            return Err(Refusal { notice: Notice::Help, message: INVALID_ARGUMENT });
        }
        if args.len() != 3 {
            return Err(Refusal { notice: Notice::Help, message: TOO_MANY_ARGUMENTS });
        }
        Ok(
            Config {
                file_path: args[1].clone(),
                pattern: args[2].clone(),
                case_insensitive: is_switched_on(variable),
            },
        )
    }
}

/// Searches `contents`, the text of the file that `config` names, for the
/// pattern of `config`, with or without regard to case as `config` says.
pub fn run_mini_grep(config: &Config, contents: &str) -> (res: Matches)
    ensures
        res.wf(),
        res@ == if config.case_insensitive {
            insensitive_hits(config.pattern@, contents.spec_bytes())
        } else {
            sensitive_hits(encode_utf8(config.pattern@), contents.spec_bytes())
        },
{
    if config.case_insensitive {
        search_case_insensitive(config.pattern.as_str(), contents)
    } else {
        search_case_sensitive(config.pattern.as_str(), contents)
    }
}

} // verus!
