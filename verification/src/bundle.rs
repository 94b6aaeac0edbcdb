//! PEM bundles: decoding a buffer into its blocks, and splitting a bundle into one
//! named PEM text per block.

use crate::text::{decimal, push_decimal};
use vstd::prelude::*;

verus! {

/// One PEM-armoured unit of a bundle: the label of its `BEGIN` line and the bytes that
/// its base64 body decodes to.
#[derive(Debug, Clone, PartialEq, Eq)]
pub struct PemBlock {
    pub label: String,
    pub contents: Vec<u8>,
}

impl View for PemBlock {
    type V = (Seq<char>, Seq<u8>);

    open spec fn view(&self) -> (Seq<char>, Seq<u8>) {
        (self.label@, self.contents@)
    }
}

/// One file of a split: its name and its PEM text.
#[derive(Debug, Clone, PartialEq, Eq)]
pub struct OutputFile {
    pub name: String,
    pub contents: String,
}

impl View for OutputFile {
    type V = (Seq<char>, Seq<char>);

    open spec fn view(&self) -> (Seq<char>, Seq<char>) {
        (self.name@, self.contents@)
    }
}

/// Why a bundle could not be split.
#[derive(Debug, Clone, Copy, PartialEq, Eq)]
pub enum BundleError {
    /// A block is not valid PEM, or the buffer holds no PEM block at all.
    MalformedPem,
    /// No prefix was given and the path of the bundle names no file to derive one from.
    MissingStem,
}

/// The label and contents of each block, in order.
pub open spec fn block_views(blocks: Seq<PemBlock>) -> Seq<(Seq<char>, Seq<u8>)> {
    blocks.map_values(|b: PemBlock| b@)
}

/// What `pem::parse_many` makes of a buffer: the label and decoded contents of each
/// block in order of appearance, or `None` where it reports an error.
pub uninterp spec fn pem_parse_many(input: Seq<u8>) -> Option<Seq<(Seq<char>, Seq<u8>)>>;

/// The lines that `pem::encode_config` writes between the `BEGIN` and the `END` line
/// of a block without headers when asked for `\n` line endings: the base64 text of the
/// contents, broken into lines.
pub uninterp spec fn pem_body_lf(contents: Seq<u8>) -> Seq<char>;

/// The PEM text of a block: the `BEGIN` line with the label, the base64 lines of the
/// contents, and the `END` line with the same label, each line closed by `\n`.
pub open spec fn pem_document(label: Seq<char>, contents: Seq<u8>) -> Seq<char> {
    "-----BEGIN "@ + label + "-----\n"@ + pem_body_lf(contents) + "-----END "@ + label
        + "-----\n"@
}

/// Calls `pem::parse_many`. Each block it returns is handed on as its tag and its
/// contents, in the same order and without its headers; any error it reports becomes
/// `None`.
#[verifier::external_body]
fn pem_sections(input: &[u8]) -> (parsed: Option<Vec<PemBlock>>)
    ensures
        match parsed {
            Some(blocks) => pem_parse_many(input@) == Some(block_views(blocks@)),
            None => pem_parse_many(input@) is None,
        },
{
    let parsed = pem::parse_many(input).ok()?;
    Some(
        parsed.into_iter().map(
            |p| PemBlock { label: p.tag().to_string(), contents: p.into_contents() },
        ).collect(),
    )
}

/// Calls `pem::encode_config` with `\n` line endings on a block made by `pem::Pem::new`
/// from the given tag and contents, which has no headers. For such a block the encoder
/// writes `-----BEGIN `, the tag and `-----`, then the base64 lines, then `-----END `,
/// the tag and `-----`, closing each line with the line ending asked for.
#[verifier::external_body]
fn pem_text(label: &str, contents: &[u8]) -> (text: String)
    ensures
        text@ == "-----BEGIN "@ + label@ + "-----\n"@ + pem_body_lf(contents@) + "-----END "@
            + label@ + "-----\n"@,
{
    pem::encode_config(
        &pem::Pem::new(label, contents),
        pem::EncodeConfig::new().set_line_ending(pem::LineEnding::LF),
    )
}

/// The blocks of a bundle, given what the PEM decoder made of it: a decoder error and
/// an empty list of blocks are both a malformed bundle.
pub open spec fn accepted_blocks(parsed: Option<Seq<(Seq<char>, Seq<u8>)>>) -> Result<
    Seq<(Seq<char>, Seq<u8>)>,
    BundleError,
> {
    match parsed {
        Some(blocks) => if blocks.len() == 0 {
            Err(BundleError::MalformedPem)
        } else {
            Ok(blocks)
        },
        None => Err(BundleError::MalformedPem),
    }
}

/// The outcome of decoding a bundle as a mathematical value.
pub open spec fn blocks_view(outcome: Result<Vec<PemBlock>, BundleError>) -> Result<
    Seq<(Seq<char>, Seq<u8>)>,
    BundleError,
> {
    match outcome {
        Ok(blocks) => Ok(block_views(blocks@)),
        Err(e) => Err(e),
    }
}

/// The blocks of the bundle `input` in order of appearance, or why it has none.
pub open spec fn bundle_blocks(input: Seq<u8>) -> Result<Seq<(Seq<char>, Seq<u8>)>, BundleError> {
    accepted_blocks(pem_parse_many(input))
}

/// Turns what the PEM decoder returned into the blocks of a bundle. A bundle without
/// any block is rejected like one with a corrupt block.
pub fn accept_blocks(parsed: Option<Vec<PemBlock>>) -> (r: Result<Vec<PemBlock>, BundleError>)
    ensures
        r matches Ok(blocks) ==> parsed == Some(blocks),
        blocks_view(r) == accepted_blocks(
            match parsed {
                Some(blocks) => Some(block_views(blocks@)),
                None => None,
            },
        ),
{
    match parsed {
        Some(blocks) => {
            if blocks.len() == 0 {
                Err(BundleError::MalformedPem)
            } else {
                Ok(blocks)
            }
        },
        None => Err(BundleError::MalformedPem),
    }
}

/// Decodes a buffer of concatenated PEM blocks into its blocks, in order of appearance.
/// The whole bundle is rejected if the decoder rejects any block or finds none.
pub fn parse_bundle(input: &[u8]) -> (r: Result<Vec<PemBlock>, BundleError>)
    ensures
        blocks_view(r) == bundle_blocks(input@),
{
    accept_blocks(pem_sections(input))
}

/// The index of the last occurrence of `c` in `s`, or -1 if there is none.
pub open spec fn last_index_of(s: Seq<char>, c: char) -> int
    decreases s.len(),
{
    if s.len() == 0 {
        -1
    } else if s.last() == c {
        s.len() - 1
    } else {
        last_index_of(s.drop_last(), c)
    }
}

/// The path without what may follow its last component: separators, and components
/// that are a single dot.
pub open spec fn without_trailing(path: Seq<char>) -> Seq<char>
    decreases path.len(),
{
    if path.len() >= 1 && path.last() == '/' {
        without_trailing(path.drop_last())
    } else if path.len() >= 2 && path.last() == '.' && path[path.len() - 2] == '/' {
        without_trailing(path.take(path.len() - 2))
    } else {
        path
    }
}

/// The last component of a path, if it names a file: there is none for an empty path,
/// for the root, and for a path that ends in `.` or `..` as a component of its own.
pub open spec fn file_name(path: Seq<char>) -> Option<Seq<char>> {
    let trimmed = without_trailing(path);
    let name = trimmed.skip(last_index_of(trimmed, '/') + 1);
    if name.len() == 0 || name == seq!['.'] || name == seq!['.', '.'] {
        None
    } else {
        Some(name)
    }
}

/// A file name without its final extension: the part before the last dot, or the whole
/// name where it has no dot or only a leading one.
pub open spec fn without_extension(name: Seq<char>) -> Seq<char> {
    let dot = last_index_of(name, '.');
    if dot <= 0 {
        name
    } else {
        name.take(dot)
    }
}

/// The stem of the file that a path names: its file name without the final extension.
pub open spec fn path_stem(path: Seq<char>) -> Option<Seq<char>> {
    match file_name(path) {
        Some(name) => Some(without_extension(name)),
        None => None,
    }
}

/// The name of the file that holds block `index` of a split: the prefix, a hyphen, the
/// index in decimal, and the extension `.crt`.
pub open spec fn output_name(prefix: Seq<char>, index: nat) -> Seq<char> {
    prefix + "-"@ + decimal(index) + ".crt"@
}

/// The files of a split: one per block and in the order of the blocks, each named
/// after the prefix and its index and holding the block's PEM text.
pub open spec fn split_files(blocks: Seq<(Seq<char>, Seq<u8>)>, prefix: Seq<char>) -> Seq<
    (Seq<char>, Seq<char>),
> {
    Seq::new(
        blocks.len(),
        |i: int| (output_name(prefix, i as nat), pem_document(blocks[i].0, blocks[i].1)),
    )
}

/// The name and text of each file, in order.
pub open spec fn file_views(files: Seq<OutputFile>) -> Seq<(Seq<char>, Seq<char>)> {
    files.map_values(|f: OutputFile| f@)
}

/// The outcome of a split as a mathematical value.
pub open spec fn split_view(outcome: Result<Vec<OutputFile>, BundleError>) -> Result<
    Seq<(Seq<char>, Seq<char>)>,
    BundleError,
> {
    match outcome {
        Ok(files) => Ok(file_views(files@)),
        Err(e) => Err(e),
    }
}

/// An optional prefix as a mathematical value.
pub open spec fn prefix_view(prefix: Option<String>) -> Option<Seq<char>> {
    match prefix {
        Some(p) => Some(p@),
        None => None,
    }
}

/// The prefix of the output names: the one given or, without one, the stem of the
/// bundle's path.
pub open spec fn chosen_prefix(path: Seq<char>, given: Option<Seq<char>>) -> Option<Seq<char>> {
    match given {
        Some(prefix) => Some(prefix),
        None => path_stem(path),
    }
}

/// What splitting the bundle `input` read from `path` yields.
pub open spec fn split_outcome(input: Seq<u8>, path: Seq<char>, given: Option<Seq<char>>) -> Result<
    Seq<(Seq<char>, Seq<char>)>,
    BundleError,
> {
    match bundle_blocks(input) {
        Err(e) => Err(e),
        Ok(blocks) => match chosen_prefix(path, given) {
            None => Err(BundleError::MissingStem),
            Some(prefix) => Ok(split_files(blocks, prefix)),
        },
    }
}

/// A split yields exactly one file per block of the bundle, and the file at index `i`
/// is the block at index `i`: it carries that index in its name, and its contents are
/// the PEM text of that block's label and bytes.
pub proof fn lemma_split_keeps_count_and_order(
    input: Seq<u8>,
    path: Seq<char>,
    given: Option<Seq<char>>,
)
    requires
        split_outcome(input, path, given) is Ok,
    ensures
        bundle_blocks(input) is Ok,
        chosen_prefix(path, given) is Some,
        split_outcome(input, path, given)->Ok_0.len() == bundle_blocks(input)->Ok_0.len(),
        forall|i: int|
            0 <= i < bundle_blocks(input)->Ok_0.len() ==> #[trigger] split_outcome(
                input,
                path,
                given,
            )->Ok_0[i] == (
                output_name(chosen_prefix(path, given)->0, i as nat),
                pem_document(bundle_blocks(input)->Ok_0[i].0, bundle_blocks(input)->Ok_0[i].1),
            ),
{
}

/// Where `c` occurs at `k` and nowhere after, or nowhere at all and `k` is -1, `k` is
/// the last index of `c`.
proof fn lemma_last_index_of(s: Seq<char>, c: char, k: int)
    requires
        -1 <= k < s.len(),
        k >= 0 ==> s[k] == c,
        forall|j: int| k < j < s.len() ==> s[j] != c,
    ensures
        last_index_of(s, c) == k,
    decreases s.len(),
{
    if s.len() > 0 && s.last() != c {
        lemma_last_index_of(s.drop_last(), c, k);
    }
}

fn find_last(s: &Vec<char>, from: usize, to: usize, c: char) -> (r: Option<usize>)
    requires
        from <= to <= s.len(),
    ensures
        match r {
            Some(k) => from <= k < to && last_index_of(s@.subrange(from as int, to as int), c)
                == k - from,
            None => last_index_of(s@.subrange(from as int, to as int), c) == -1,
        },
{
    let ghost part = s@.subrange(from as int, to as int);
    let mut i: usize = to;
    while i > from
        invariant
            from <= i <= to <= s.len(),
            part == s@.subrange(from as int, to as int),
            forall|j: int| i - from <= j < part.len() ==> part[j] != c,
        decreases i,
    {
        i -= 1;
        if s[i] == c {
            proof {
                lemma_last_index_of(part, c, i - from);
            }
            return Some(i);
        }
    }
    proof {
        lemma_last_index_of(part, c, -1);
    }
    None
}

fn trimmed_length(path: &Vec<char>) -> (end: usize)
    ensures
        end <= path.len(),
        without_trailing(path@) == path@.take(end as int),
{
    let mut end: usize = path.len();
    assert(path@.take(end as int) =~= path@);
    loop
        invariant
            end <= path.len(),
            without_trailing(path@) == without_trailing(path@.take(end as int)),
        ensures
            without_trailing(path@) == path@.take(end as int),
        decreases end,
    {
        let ghost head = path@.take(end as int);
        if end >= 1 && path[end - 1] == '/' {
            assert(head.drop_last() =~= path@.take(end - 1));
            end -= 1;
        } else if end >= 2 && path[end - 1] == '.' && path[end - 2] == '/' {
            assert(head.take(head.len() - 2) =~= path@.take(end - 2));
            end -= 2;
        } else {
            break ;
        }
    }
    end
}

fn collect(chars: &Vec<char>, from: usize, to: usize) -> (s: String)
    requires
        from <= to <= chars.len(),
    ensures
        s@ == chars@.subrange(from as int, to as int),
{
    let mut s = String::new();
    let mut i: usize = from;
    while i < to
        invariant
            from <= i <= to <= chars.len(),
            s@ == chars@.subrange(from as int, i as int),
        decreases to - i,
    {
        s.push(chars[i]);
        assert(chars@.subrange(from as int, i + 1) =~= chars@.subrange(from as int, i as int).push(
            chars[i as int],
        ));
        i += 1;
    }
    s
}

/// The stem of the file that `path` names: its last component without the final
/// extension. Components are separated by `/`; separators and single-dot components
/// after the last component are passed over. There is no stem where the path is empty,
/// is the root, or ends in `.` or `..` as a component of its own. A name without a dot,
/// or with a leading dot only, is its own stem.
pub fn file_stem(path: &str) -> (stem: Option<String>)
    ensures
        match stem {
            Some(s) => path_stem(path@) == Some(s@),
            None => path_stem(path@) is None,
        },
{
    let mut chars: Vec<char> = Vec::new();
    for c in it: path.chars()
        invariant
            it.seq() == path@,
            chars@ == it.seq().take(it.index() as int),
    {
        chars.push(c);
    }
    assert(chars@ == path@);
    let end = trimmed_length(&chars);
    let ghost trimmed = chars@.take(end as int);
    let start: usize = match find_last(&chars, 0, end, '/') {
        Some(k) => k + 1,
        None => 0,
    };
    let ghost name = chars@.subrange(start as int, end as int);
    assert(name =~= trimmed.skip(last_index_of(trimmed, '/') + 1));
    let len: usize = end - start;
    if len == 0 {
        return None;
    }
    if chars[start] == '.' && (len == 1 || (len == 2 && chars[start + 1] == '.')) {
        assert(name =~= seq!['.'] || name =~= seq!['.', '.']);
        return None;
    }
    let stop: usize = match find_last(&chars, start, end, '.') {
        Some(k) => if k > start {
            k
        } else {
            end
        },
        None => end,
    };
    assert(chars@.subrange(start as int, stop as int) =~= without_extension(name));
    Some(collect(&chars, start, stop))
}

/// The name of the file for block `index` of a split: `<prefix>-<index>.crt`.
pub fn output_file_name(prefix: &str, index: usize) -> (name: String)
    ensures
        name@ == output_name(prefix@, index as nat),
{
    let mut name = String::new();
    name.append(prefix);
    name.append("-");
    push_decimal(&mut name, index);
    name.append(".crt");
    name
}

/// Renders each block as a file of its own: block `i` becomes the file named
/// `<prefix>-<i>.crt` whose contents are the block in PEM text with `\n` line endings
/// and its own label. There are exactly as many files as blocks, in the same order.
pub fn split_blocks(blocks: &Vec<PemBlock>, prefix: &str) -> (files: Vec<OutputFile>)
    ensures
        file_views(files@) == split_files(block_views(blocks@), prefix@),
        files.len() == blocks.len(),
{
    let mut files: Vec<OutputFile> = Vec::new();
    let mut i: usize = 0;
    while i < blocks.len()
        invariant
            i <= blocks.len(),
            files.len() == i,
            forall|k: int|
                0 <= k < i ==> (#[trigger] files[k])@ == (
                    output_name(prefix@, k as nat),
                    pem_document(blocks[k].label@, blocks[k].contents@),
                ),
        decreases blocks.len() - i,
    {
        let name = output_file_name(prefix, i);
        let contents = pem_text(blocks[i].label.as_str(), blocks[i].contents.as_slice());
        files.push(OutputFile { name, contents });
        i += 1;
    }
    files
}

/// Splits a bundle into one PEM file per certificate.
///
/// `bundle` is the content of the bundle and `path` the path it was read from. The
/// files are named after `output_prefix` or, where that is `None`, after the stem of
/// `path`. The result lists the files in the order of the blocks in the bundle; its
/// length is the number of certificates split. Nothing is returned for a bundle that is
/// malformed or empty, nor where a prefix is needed and the path has no stem.
pub fn split_bundle(bundle: &[u8], path: &str, output_prefix: &Option<String>) -> (r: Result<
    Vec<OutputFile>,
    BundleError,
>)
    ensures
        split_view(r) == split_outcome(bundle@, path@, prefix_view(*output_prefix)),
{
    let blocks = match parse_bundle(bundle) {
        Ok(blocks) => blocks,
        Err(e) => {
            return Err(e);
        },
    };
    match output_prefix {
        Some(prefix) => Ok(split_blocks(&blocks, prefix.as_str())),
        None => match file_stem(path) {
            Some(stem) => Ok(split_blocks(&blocks, stem.as_str())),
            None => Err(BundleError::MissingStem),
        },
    }
}

} // verus!
