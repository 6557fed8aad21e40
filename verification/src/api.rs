//! The analyzer-compatible public API: options, and the decisions of `analyze`.

use vstd::prelude::*;
use vstd::string::*;
use crate::json::same_text;
use crate::text::rfind_spec;

verus! {

/// The AI backend a request is meant for.
#[derive(Debug, Clone, Copy, PartialEq, Eq, Structural)]
pub enum Backend {
    Gemini,
    Claude,
    Codex,
}

impl Default for Backend {
    fn default() -> (r: Self)
        ensures
            r == Backend::Gemini,
    {
        Backend::Gemini
    }
}

/// How the use of the backend is billed.
#[derive(Debug, Clone, Copy, PartialEq, Eq, Structural)]
pub enum UsageMode {
    PayPerUse,
    TimeBasedQuota,
    Resident,
}

impl Default for UsageMode {
    fn default() -> (r: Self)
        ensures
            r == UsageMode::TimeBasedQuota,
    {
        UsageMode::TimeBasedQuota
    }
}

/// The form the answer is asked for in.
#[derive(Debug, Clone, Copy, PartialEq, Eq, Structural)]
pub enum OutputFormat {
    Text,
    Json,
}

impl Default for OutputFormat {
    fn default() -> (r: Self)
        ensures
            r == OutputFormat::Text,
    {
        OutputFormat::Text
    }
}

/// Options of an analysis request.
#[derive(Debug, Clone)]
pub struct AnalyzeOptions {
    pub model: String,
    pub output_format: OutputFormat,
    pub backend: Backend,
    pub usage_mode: UsageMode,
}

impl Default for AnalyzeOptions {
    fn default() -> (r: Self)
        ensures
            r.model@ == Seq::<char>::empty(),
            r.output_format == OutputFormat::Text,
            r.backend == Backend::Gemini,
            r.usage_mode == UsageMode::TimeBasedQuota,
    {
        AnalyzeOptions {
            model: String::new(),
            output_format: OutputFormat::Text,
            backend: Backend::default(),
            usage_mode: UsageMode::default(),
        }
    }
}

impl AnalyzeOptions {
    /// Ask for the answer as a JSON object.
    pub fn json(self) -> (r: Self)
        ensures
            r.output_format == OutputFormat::Json,
            r.model == self.model,
            r.backend == self.backend,
            r.usage_mode == self.usage_mode,
    {
        let mut s = self;
        s.output_format = OutputFormat::Json;
        s
    }

    /// Use `backend`.
    pub fn with_backend(self, backend: Backend) -> (r: Self)
        ensures
            r.backend == backend,
            r.model == self.model,
            r.output_format == self.output_format,
            r.usage_mode == self.usage_mode,
    {
        let mut s = self;
        s.backend = backend;
        s
    }

    /// Use `usage_mode`.
    pub fn with_usage_mode(self, usage_mode: UsageMode) -> (r: Self)
        ensures
            r.usage_mode == usage_mode,
            r.model == self.model,
            r.output_format == self.output_format,
            r.backend == self.backend,
    {
        let mut s = self;
        s.usage_mode = usage_mode;
        s
    }

    /// Use the model named `model`.
    pub fn with_model(self, model: String) -> (r: Self)
        ensures
            r.model == model,
            r.output_format == self.output_format,
            r.backend == self.backend,
            r.usage_mode == self.usage_mode,
    {
        let mut s = self;
        s.model = model;
        s
    }
}

/// The sentence appended to a prompt that asks for a JSON answer.
pub open spec fn json_instruction_spec() -> Seq<char> {
    " Respond with ONLY the JSON object."@
}

/// The prompt as sent: with the JSON instruction appended when JSON is asked for.
pub open spec fn full_prompt_spec(prompt: Seq<char>, format: OutputFormat) -> Seq<char> {
    if format == OutputFormat::Json {
        prompt + json_instruction_spec()
    } else {
        prompt
    }
}

/// The prompt as sent for the requested output format.
pub fn full_prompt(prompt: &str, format: OutputFormat) -> (r: String)
    ensures
        r@ == full_prompt_spec(prompt@, format),
{
    let mut p = prompt.to_owned();
    if let OutputFormat::Json = format {
        p.append(" Respond with ONLY the JSON object.");
    }
    p
}

/// File extensions (without the dot) taken for images.
pub open spec fn is_image_extension_spec(ext: Option<Seq<char>>) -> bool {
    match ext {
        Some(e) => e == "jpg"@ || e == "jpeg"@ || e == "png"@ || e == "gif"@ || e == "webp"@ || e
            == "bmp"@,
        None => false,
    }
}

/// Whether a file with extension `ext` is an image.
pub fn is_image_extension(ext: Option<&str>) -> (r: bool)
    ensures
        r == is_image_extension_spec(
            match ext {
                Some(e) => Some(e@),
                None => None,
            },
        ),
{
    match ext {
        Some(e) => same_text(e, "jpg") || same_text(e, "jpeg") || same_text(e, "png") || same_text(
            e,
            "gif",
        ) || same_text(e, "webp") || same_text(e, "bmp"),
        None => false,
    }
}

/// `e` is the text after some `.` in `path`, itself free of dots.
pub open spec fn follows_a_dot(path: Seq<char>, e: Seq<char>) -> bool {
    &&& !e.contains('.')
    &&& exists|i: int|
        0 <= i && i + 1 + e.len() <= path.len() && #[trigger] path[i] == '.' && path.subrange(
            i + 1,
            i + 1 + e.len(),
        ) == e
}

/// A path that is a single file name on every platform: no `/`, `\` or `:`
/// (separators and drive prefixes), and neither empty, `.` nor `..`.
pub open spec fn is_plain_file_name(p: Seq<char>) -> bool {
    &&& !p.contains('/')
    &&& !p.contains('\\')
    &&& !p.contains(':')
    &&& p != Seq::<char>::empty()
    &&& p != seq!['.']
    &&& p != seq!['.', '.']
}

/// The extension of a plain file name, as `Path::extension` documents it: the
/// part after the final `.`; none without a `.`, or when the only `.` begins the name.
pub open spec fn plain_extension_spec(p: Seq<char>) -> Option<Seq<char>> {
    match rfind_spec(p, seq!['.']) {
        None => None,
        Some(i) => if i == 0 {
            None
        } else {
            Some(p.subrange(i + 1, p.len() as int))
        },
    }
}

/// The file name of `p` where every platform reads the same one: `p` itself when
/// it is a plain file name, or the plain name after the last `/` when what comes
/// before it holds no `\` or `:` and does not begin with `/` (so no drive or
/// network prefix can be read into it). `None` for other paths.
pub open spec fn portable_file_name(p: Seq<char>) -> Option<Seq<char>> {
    if is_plain_file_name(p) {
        Some(p)
    } else {
        match rfind_spec(p, seq!['/']) {
            None => None,
            Some(k) => {
                let d = p.subrange(0, k);
                let n = p.subrange(k + 1, p.len() as int);
                if is_plain_file_name(n) && !d.contains('\\') && !d.contains(':') && !(d.len() > 0
                    && d[0] == '/') {
                    Some(n)
                } else {
                    None
                }
            },
        }
    }
}

/// Characters after which a path's last segment begins on some platform: the
/// separators `/` and `\`, and the `:` of a drive.
pub open spec fn is_cut_char(c: char) -> bool {
    c == '/' || c == '\\' || c == ':'
}

/// The text after the last separator or drive colon of `p`.
pub open spec fn final_segment(p: Seq<char>) -> Seq<char>
    decreases p.len(),
{
    if p.len() == 0 {
        p
    } else if is_cut_char(p.last()) {
        Seq::empty()
    } else {
        final_segment(p.drop_last()).push(p.last())
    }
}

/// Whether `p` begins with two separators (a network or verbatim prefix on Windows).
pub open spec fn starts_with_two_separators(p: Seq<char>) -> bool {
    p.len() >= 2 && (p[0] == '/' || p[0] == '\\') && (p[1] == '/' || p[1] == '\\')
}

/// The extension of a last segment: the part after its final `.`, when that `.`
/// is not the segment's first character and the segment is not `..`.
pub open spec fn segment_extension(n: Seq<char>) -> Option<Seq<char>> {
    match rfind_spec(n, seq!['.']) {
        Some(i) => if i > 0 && n != seq!['.', '.'] {
            Some(n.subrange(i + 1, n.len() as int))
        } else {
            None
        },
        None => None,
    }
}

/// Whether `e` holds a separator or drive colon.
pub open spec fn holds_cut_char(e: Seq<char>) -> bool {
    exists|k: int| 0 <= k < e.len() && #[trigger] is_cut_char(e[k])
}

/// The text of an optional string.
pub open spec fn text_option(o: Option<String>) -> Option<Seq<char>> {
    match o {
        Some(s) => Some(s@),
        None => None,
    }
}

/// The last segment of `p` is not empty and holds no `.`.
pub open spec fn undotted_last_segment(p: Seq<char>) -> bool {
    final_segment(p).len() > 0 && !final_segment(p).contains('.')
}

/// The last segment of `p` has an extension and `p` has no network prefix.
pub open spec fn dotted_last_segment(p: Seq<char>) -> bool {
    !starts_with_two_separators(p) && segment_extension(final_segment(p)) is Some
}

/// Whether the file that `p` names is an image, where every platform agrees: a
/// last segment without a `.` has no image extension; a last segment whose final
/// `.` is not its first character gives its extension (unless a network prefix
/// may be involved); a portable file name gives its extension.
pub open spec fn known_image(p: Seq<char>) -> Option<bool> {
    if undotted_last_segment(p) {
        Some(false)
    } else if dotted_last_segment(p) {
        Some(is_image_extension_spec(segment_extension(final_segment(p))))
    } else if portable_file_name(p) is Some {
        Some(is_image_extension_spec(plain_extension_spec(portable_file_name(p)->0)))
    } else {
        None
    }
}

/// The extension of the file that `path` names, from `std::path::Path::extension`
/// (only when it is UTF-8). Claimed: an extension is dot-free text that follows a
/// `.` in the path. Where the file name is the same on every platform
/// (`portable_file_name`, `/` being a separator everywhere), the extension is the
/// part of that name after its final `.`, as the documentation of
/// `Path::file_name` (the last component) and `Path::extension` says. On every
/// platform the file name ends with the text after the last `/`, `\` or `:`
/// (Unix reads `\` and `:` as ordinary characters; Windows reads `\` as a
/// separator and a leading `C:` as a drive prefix): so when that last segment
/// holds no `.`, any extension holds one of those characters; and when the
/// segment's final `.` is not its first character,
/// that `.` ends the file name's stem everywhere and the extension is what follows
/// it, unless the path begins with two separators (a Windows network or verbatim
/// prefix may then take the segment).
#[verifier::external_body]
fn path_extension(path: &str) -> (r: Option<String>)
    ensures
        r matches Some(e) ==> follows_a_dot(path@, e@),
        undotted_last_segment(path@) ==> (r matches Some(e) ==> holds_cut_char(e@)),
        dotted_last_segment(path@) ==> text_option(r) == segment_extension(final_segment(path@)),
        portable_file_name(path@) matches Some(n) ==> match r {
            Some(e) => plain_extension_spec(n) == Some(e@),
            None => plain_extension_spec(n) is None,
        },
{
    std::path::Path::new(path).extension().and_then(|e| e.to_str()).map(|e| e.to_owned())
}

/// Whether the file that `path` names has an image extension.
pub fn is_image(path: &str) -> (r: bool)
    ensures
        r ==> exists|e: Seq<char>| follows_a_dot(path@, e) && is_image_extension_spec(Some(e)),
        portable_file_name(path@) matches Some(n) ==> r == is_image_extension_spec(plain_extension_spec(n)),
        known_image(path@) matches Some(b) ==> r == b,
{
    match path_extension(path) {
        Some(e) => {
            proof {
                lemma_image_extensions_plain(e@);
            }
            is_image_extension(Some(e.as_str()))
        },
        None => false,
    }
}

/// The image extensions hold no separator or drive colon.
proof fn lemma_image_extensions_plain(e: Seq<char>)
    ensures
        is_image_extension_spec(Some(e)) ==> forall|k: int| 0 <= k < e.len() ==> !#[trigger] is_cut_char(e[k]),
{
    reveal_strlit("jpg");
    reveal_strlit("jpeg");
    reveal_strlit("png");
    reveal_strlit("gif");
    reveal_strlit("webp");
    reveal_strlit("bmp");
}

/// Whatever directories or drive precede it, a file whose name has an extension
/// (a `.` that is not the name's first character) is an image exactly when that
/// extension is an image extension, unless the path begins with two separators.
/// A name without any `.` is never an image.
pub proof fn law_image_by_file_name(dir: Seq<char>, name: Seq<char>)
    requires
        dir.len() == 0 || is_cut_char(dir.last()),
        forall|k: int| 0 <= k < name.len() ==> !#[trigger] is_cut_char(name[k]),
        name.len() > 0,
        !starts_with_two_separators(dir + name),
    ensures
        !name.contains('.') ==> known_image(dir + name) == Some(false),
        segment_extension(name) matches Some(x) ==> known_image(dir + name) == Some(is_image_extension_spec(Some(x))),
{
    lemma_final_segment(dir, name);
    crate::text::lemma_rfind(name, seq!['.']);
    if let Some(i) = rfind_spec(name, seq!['.']) {
        assert(name.subrange(i, i + 1) == seq!['.']);
        assert(name[i] == name.subrange(i, i + 1)[0]);
        assert(name.contains('.'));
        assert(!undotted_last_segment(dir + name));
    }
}

/// The last segment of a path is the name after its last separator or colon.
pub proof fn lemma_final_segment(dir: Seq<char>, name: Seq<char>)
    requires
        dir.len() == 0 || is_cut_char(dir.last()),
        forall|k: int| 0 <= k < name.len() ==> !#[trigger] is_cut_char(name[k]),
    ensures
        final_segment(dir + name) == name,
    decreases name.len(),
{
    if name.len() == 0 {
        assert(dir + name =~= dir);
    } else {
        let m = name.drop_last();
        assert forall|k: int| 0 <= k < m.len() implies !#[trigger] is_cut_char(m[k]) by {
            assert(m[k] == name[k]);
        }
        lemma_final_segment(dir, m);
        assert((dir + name).drop_last() =~= dir + m);
        assert((dir + name).last() == name.last());
        assert(!is_cut_char(name[name.len() - 1]));
        assert(m.push(name.last()) =~= name);
    }
}

/// Which session call `analyze` makes, with the prompt it sends.
#[derive(Debug)]
pub enum AnalyzePlan {
    /// No files: send the prompt alone.
    Prompt(String),
    /// The first file is an image: send the prompt with that image.
    ImagePrompt(String),
    /// Send the prompt with `@` references to the files.
    FilesPrompt(String),
}

/// What `analyze` does for `prompt`, given whether there are files and whether
/// the first of them is an image.
pub fn plan_analyze(prompt: &str, has_files: bool, first_is_image: bool, options: &AnalyzeOptions) -> (r: AnalyzePlan)
    ensures
        !has_files ==> (r matches AnalyzePlan::Prompt(p) && p@ == full_prompt_spec(prompt@, options.output_format)),
        has_files && first_is_image ==> (r matches AnalyzePlan::ImagePrompt(p) && p@ == full_prompt_spec(prompt@, options.output_format)),
        has_files && !first_is_image ==> (r matches AnalyzePlan::FilesPrompt(p) && p@ == full_prompt_spec(prompt@, options.output_format)),
{
    let full = full_prompt(prompt, options.output_format);
    if !has_files {
        AnalyzePlan::Prompt(full)
    } else if first_is_image {
        AnalyzePlan::ImagePrompt(full)
    } else {
        AnalyzePlan::FilesPrompt(full)
    }
}

/// What `analyze` does for `prompt` and `files` (file paths as text).
pub fn plan_analyze_files(prompt: &str, files: &[&str], options: &AnalyzeOptions) -> (r: AnalyzePlan)
    ensures
        files@.len() == 0 ==> (r matches AnalyzePlan::Prompt(p) && p@ == full_prompt_spec(prompt@, options.output_format)),
        files@.len() > 0 ==> match r {
            AnalyzePlan::Prompt(_) => false,
            AnalyzePlan::ImagePrompt(p) => p@ == full_prompt_spec(prompt@, options.output_format)
                && exists|e: Seq<char>| follows_a_dot(files@[0]@, e) && is_image_extension_spec(Some(e)),
            AnalyzePlan::FilesPrompt(p) => p@ == full_prompt_spec(prompt@, options.output_format),
        },
        files@.len() > 0 ==> (portable_file_name(files@[0]@) matches Some(n) ==> (r is ImagePrompt
            <==> is_image_extension_spec(plain_extension_spec(n)))),
        files@.len() > 0 ==> (known_image(files@[0]@) matches Some(b) ==> (r is ImagePrompt <==> b)),
{
    if files.len() == 0 {
        plan_analyze(prompt, false, false, options)
    } else {
        let first_is_image = is_image(files[0]);
        plan_analyze(prompt, true, first_is_image, options)
    }
}

} // verus!
