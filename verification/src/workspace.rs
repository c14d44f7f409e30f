//! The workspace folder on disk: where its parts are, where a captured item's note goes, and
//! the Markdown written for it. Creating folders and writing files happen around the library.

use vstd::prelude::*;
use crate::models::CapturedContent;
use crate::text::{
    append, chars_of, concat_chars, eq_str, lines, lines_chars, opt_string, or_default,
    split_chars, split_on, starts_with, starts_with_str, string_from_chars, take_chars,
    take_prefix, text_or, trim, trim_chars, trim_start_char, trim_start_matches_char, views,
};
use crate::wiki_engine::{path_extension, path_extension_of, trimmed_nonblank};

verus! {

broadcast use vstd::seq::group_seq_axioms;

/// The name of the workspace folder made under the user's documents.
pub const WORKSPACE_FOLDER_NAME: &'static str = "OpenWiki Workspace";

/// How a note's file name writes its capture time (local time).
pub const NOTE_STAMP_PATTERN: &'static str = "%Y%m%d-%H%M%S";

// ─── Trusted: paths, folders of the user, local time ───────────────────────

/// What `Path::join` gives for a base and a relative part, as text (with the platform's
/// separator).
pub uninterp spec fn joined_path(base: Seq<char>, child: Seq<char>) -> Seq<char>;

/// `Path::new(base).join(child)` as text. Trusted: std's join, a function of the two texts on
/// a given platform; the text of a path built from text is that text.
#[verifier::external_body]
pub(crate) fn join_path(base: &str, child: &str) -> (r: String)
    ensures
        r@ == joined_path(base@, child@),
{
    std::path::Path::new(base).join(child).to_string_lossy().into_owned()
}

/// `dirs::home_dir()` as text. Trusted; nothing is stated: it reads the environment.
#[verifier::external_body]
pub(crate) fn home_dir() -> Option<String> {
    match dirs::home_dir() {
        Some(p) => Some(p.to_string_lossy().into_owned()),
        None => None,
    }
}

/// `dirs::document_dir()` as text. Trusted; nothing is stated: it reads the environment.
#[verifier::external_body]
fn document_dir() -> Option<String> {
    match dirs::document_dir() {
        Some(p) => Some(p.to_string_lossy().into_owned()),
        None => None,
    }
}

/// `dirs::data_dir()` as text. Trusted; nothing is stated: it reads the environment.
#[verifier::external_body]
pub(crate) fn data_dir() -> Option<String> {
    match dirs::data_dir() {
        Some(p) => Some(p.to_string_lossy().into_owned()),
        None => None,
    }
}

/// `dirs::picture_dir()` as text. Trusted; nothing is stated: it reads the environment.
#[verifier::external_body]
pub(crate) fn picture_dir() -> Option<String> {
    match dirs::picture_dir() {
        Some(p) => Some(p.to_string_lossy().into_owned()),
        None => None,
    }
}

/// `DateTime::parse_from_rfc3339(text)`, moved to the machine's time zone and written with
/// `pattern`; `None` when chrono does not parse the text. Trusted; nothing is stated of the
/// text, which depends on the time zone. Only the note stamp's pattern is admitted: chrono's
/// formatting fails, and `to_string` panics, on a pattern with an unknown specifier.
#[verifier::external_body]
fn local_time_text(rfc3339: &str, pattern: &str) -> Option<String>
    requires
        pattern@ == NOTE_STAMP_PATTERN@,
{
    match chrono::DateTime::parse_from_rfc3339(rfc3339) {
        Ok(t) => Some(t.with_timezone(&chrono::Local).format(pattern).to_string()),
        Err(_) => None,
    }
}

/// `Local::now()` written with `pattern`. Trusted; nothing is stated: it reads the clock.
/// Only the note stamp's pattern is admitted, as for `local_time_text`.
#[verifier::external_body]
fn local_now_text(pattern: &str) -> String
    requires
        pattern@ == NOTE_STAMP_PATTERN@,
{
    chrono::Local::now().format(pattern).to_string()
}

// ─── Where the workspace is ────────────────────────────────────────────────

/// The default workspace: a folder in the user's documents, else in the home folder, else in
/// the current folder.
pub open spec fn workspace_root_under(documents: Option<Seq<char>>, home: Option<Seq<char>>) -> Seq<
    char,
> {
    let base = match documents {
        Some(d) => d,
        None => or_default(home, "."@),
    };
    joined_path(base, WORKSPACE_FOLDER_NAME@)
}

pub fn default_workspace_root_from(documents: &Option<String>, home: &Option<String>) -> (r:
    String)
    ensures
        r@ == workspace_root_under(opt_string(*documents), opt_string(*home)),
{
    let base = match documents {
        Some(d) => chars_of(d.as_str()),
        None => text_or(home, "."),
    };
    join_path(string_from_chars(&base).as_str(), WORKSPACE_FOLDER_NAME)
}

/// The default workspace folder of this user.
pub fn default_workspace_root() -> (r: String)
    ensures
        exists|d: Option<Seq<char>>, h: Option<Seq<char>>| r@ == workspace_root_under(d, h),
{
    let d = document_dir();
    let h = home_dir();
    default_workspace_root_from(&d, &h)
}

/// A path the user typed: trimmed; empty means the default workspace, `~` the home folder
/// (kept as typed when there is none) and `~/rest` a path under it.
pub open spec fn expanded_user_path(
    input: Seq<char>,
    home: Option<Seq<char>>,
    default_root: Seq<char>,
) -> Seq<char> {
    let t = trim(input);
    if t.len() == 0 {
        default_root
    } else if t == "~"@ {
        or_default(home, t)
    } else if starts_with(t, "~/"@) {
        joined_path(or_default(home, Seq::empty()), t.subrange(2, t.len() as int))
    } else {
        t
    }
}

pub fn expand_user_path_with(input: &str, home: &Option<String>, default_root: &str) -> (r:
    String)
    ensures
        r@ == expanded_user_path(input@, opt_string(*home), default_root@),
{
    proof {
        reveal_strlit("~/");
    }
    let t = trim_chars(&chars_of(input));
    if t.len() == 0 {
        string_from_chars(&chars_of(default_root))
    } else if eq_str(&t, "~") {
        match home {
            Some(h) => h.clone(),
            None => string_from_chars(&t),
        }
    } else if starts_with_str(&t, "~/") {
        let rest = crate::text::slice_chars(&t, 2, t.len());
        let base = text_or(home, "");
        proof {
            reveal_strlit("");
            assert(""@ =~= Seq::<char>::empty());
        }
        join_path(string_from_chars(&base).as_str(), string_from_chars(&rest).as_str())
    } else {
        string_from_chars(&t)
    }
}

/// A path the user typed, expanded against this user's folders.
pub fn expand_user_path(input: &str) -> (r: String)
    ensures
        exists|h: Option<Seq<char>>, d: Seq<char>| r@ == expanded_user_path(input@, h, d),
{
    let h = home_dir();
    let d = default_workspace_root();
    expand_user_path_with(input, &h, d.as_str())
}

/// The workspace a setting names: the setting expanded when it holds more than blanks,
/// otherwise the default workspace.
pub open spec fn workspace_root_for(
    setting: Option<Seq<char>>,
    home: Option<Seq<char>>,
    default_root: Seq<char>,
) -> Seq<char> {
    match setting {
        Some(s) => if trim(s).len() > 0 {
            expanded_user_path(s, home, default_root)
        } else {
            default_root
        },
        None => default_root,
    }
}

pub fn resolve_workspace_root_with(
    setting: &Option<String>,
    home: &Option<String>,
    default_root: &str,
) -> (r: String)
    ensures
        r@ == workspace_root_for(opt_string(*setting), opt_string(*home), default_root@),
{
    match setting {
        Some(s) => {
            let t = trim_chars(&chars_of(s.as_str()));
            if t.len() > 0 {
                expand_user_path_with(s.as_str(), home, default_root)
            } else {
                string_from_chars(&chars_of(default_root))
            }
        },
        None => string_from_chars(&chars_of(default_root)),
    }
}

/// The workspace the `workspace_root` setting names, for this user.
pub fn resolve_workspace_root(setting: &Option<String>) -> (r: String)
    ensures
        exists|h: Option<Seq<char>>, d: Seq<char>|
            r@ == workspace_root_for(opt_string(*setting), h, d),
{
    let h = home_dir();
    let d = default_workspace_root();
    resolve_workspace_root_with(setting, &h, d.as_str())
}

// ─── The folders of a workspace ────────────────────────────────────────────

/// The folders of a workspace, and whether it exists on disk.
pub struct WorkspaceProtocolPaths {
    pub initialized: bool,
    pub root: String,
    pub inbox: String,
    pub raw: String,
    pub wiki_root: String,
    pub wiki_cases: String,
    pub wiki_concepts: String,
    pub wiki_themes: String,
    pub wiki_dashboards: String,
    pub wiki_drafts: String,
    pub wiki_candidates: String,
    pub insights: String,
}

/// `inbox`, `raw`, `wiki` and `insights` under the root; the wiki's `cases`, `concepts`,
/// `themes`, `dashboards`, `_drafts` and `_candidates` under `wiki`.
pub open spec fn paths_of(p: WorkspaceProtocolPaths, root: Seq<char>, initialized: bool) -> bool {
    let wiki = joined_path(root, "wiki"@);
    &&& p.initialized == initialized
    &&& p.root@ == root
    &&& p.inbox@ == joined_path(root, "inbox"@)
    &&& p.raw@ == joined_path(root, "raw"@)
    &&& p.wiki_root@ == wiki
    &&& p.wiki_cases@ == joined_path(wiki, "cases"@)
    &&& p.wiki_concepts@ == joined_path(wiki, "concepts"@)
    &&& p.wiki_themes@ == joined_path(wiki, "themes"@)
    &&& p.wiki_dashboards@ == joined_path(wiki, "dashboards"@)
    &&& p.wiki_drafts@ == joined_path(wiki, "_drafts"@)
    &&& p.wiki_candidates@ == joined_path(wiki, "_candidates"@)
    &&& p.insights@ == joined_path(root, "insights"@)
}

pub fn path_set(root: &str, initialized: bool) -> (p: WorkspaceProtocolPaths)
    ensures
        paths_of(p, root@, initialized),
{
    let wiki = join_path(root, "wiki");
    WorkspaceProtocolPaths {
        initialized,
        root: string_from_chars(&chars_of(root)),
        inbox: join_path(root, "inbox"),
        raw: join_path(root, "raw"),
        wiki_cases: join_path(wiki.as_str(), "cases"),
        wiki_concepts: join_path(wiki.as_str(), "concepts"),
        wiki_themes: join_path(wiki.as_str(), "themes"),
        wiki_dashboards: join_path(wiki.as_str(), "dashboards"),
        wiki_drafts: join_path(wiki.as_str(), "_drafts"),
        wiki_candidates: join_path(wiki.as_str(), "_candidates"),
        insights: join_path(root, "insights"),
        wiki_root: wiki,
    }
}

/// The folders of the workspace the `workspace_root` setting names. `on_disk` tells whether a
/// folder exists; it is asked about the root alone.
pub fn resolve_workspace_paths_from_repo<F: Fn(&str) -> bool>(
    root_setting: &Option<String>,
    on_disk: F,
) -> (p: WorkspaceProtocolPaths)
    requires
        forall|s: &str| on_disk.requires((s,)),
    ensures
        exists|h: Option<Seq<char>>, d: Seq<char>|
            paths_of(p, workspace_root_for(opt_string(*root_setting), h, d), p.initialized),
        exists|s: &str| s@ == p.root@ && on_disk.ensures((s,), p.initialized),
{
    let root = resolve_workspace_root(root_setting);
    let initialized = on_disk(root.as_str());
    path_set(root.as_str(), initialized)
}

/// The folder a request to set up the workspace names: the given path expanded, or the
/// default workspace.
pub fn requested_workspace_root(requested: &Option<String>) -> (r: String)
    ensures
        requested is None ==> exists|d: Option<Seq<char>>, h: Option<Seq<char>>|
            r@ == workspace_root_under(d, h),
        requested matches Some(q) ==> exists|h: Option<Seq<char>>, d: Seq<char>|
            r@ == expanded_user_path(q@, h, d),
{
    match requested {
        Some(q) => expand_user_path(q.as_str()),
        None => default_workspace_root(),
    }
}


// ─── Notes written for a capture ───────────────────────────────────────────

/// A note's file name: the capture's local time stamp, its type and the first eight
/// characters of its id.
pub open spec fn note_file_name(stamp: Seq<char>, c: CapturedContent) -> Seq<char> {
    stamp + "-"@ + c.content_type@ + "-"@ + take_chars(c.id@, 8) + ".md"@
}

pub fn note_file_name_with_stamp(stamp: &str, content: &CapturedContent) -> (r: String)
    ensures
        r@ == note_file_name(stamp@, *content),
{
    let a = append(chars_of(stamp), "-");
    let b = append(a, content.content_type.as_str());
    let c = append(b, "-");
    let d = concat_chars(&c, &take_prefix(&chars_of(content.id.as_str()), 8));
    string_from_chars(&append(d, ".md"))
}

/// The file name of a capture's note, stamped with its capture time in local time, or with
/// the current time when the capture time does not parse.
pub fn workspace_note_file_name(content: &CapturedContent) -> (r: String)
    ensures
        exists|stamp: Seq<char>| r@ == note_file_name(stamp, *content),
{
    let stamp = match local_time_text(content.captured_at.as_str(), NOTE_STAMP_PATTERN) {
        Some(s) => s,
        None => local_now_text(NOTE_STAMP_PATTERN),
    };
    note_file_name_with_stamp(stamp.as_str(), content)
}

/// Where a capture's note goes in the inbox.
pub fn workspace_inbox_note_path(paths: &WorkspaceProtocolPaths, content: &CapturedContent) -> (r:
    String)
    ensures
        exists|stamp: Seq<char>| r@ == joined_path(paths.inbox@, note_file_name(stamp, *content)),
{
    let name = workspace_note_file_name(content);
    join_path(paths.inbox.as_str(), name.as_str())
}

/// Where a capture's note goes among the raw notes.
pub fn workspace_raw_note_path(paths: &WorkspaceProtocolPaths, content: &CapturedContent) -> (r:
    String)
    ensures
        exists|stamp: Seq<char>| r@ == joined_path(paths.raw@, note_file_name(stamp, *content)),
{
    let name = workspace_note_file_name(content);
    join_path(paths.raw.as_str(), name.as_str())
}

/// The inbox and raw paths of a capture's note, stamped once, so that both carry the same
/// file name.
pub fn workspace_note_paths(paths: &WorkspaceProtocolPaths, content: &CapturedContent) -> (r: (
    String,
    String,
))
    ensures
        exists|stamp: Seq<char>|
            r.0@ == joined_path(paths.inbox@, note_file_name(stamp, *content)) && r.1@
                == joined_path(paths.raw@, note_file_name(stamp, *content)),
{
    let name = workspace_note_file_name(content);
    (join_path(paths.inbox.as_str(), name.as_str()), join_path(paths.raw.as_str(), name.as_str()))
}

/// An image's copy in the inbox: `assets/<id>.<extension of the source>`, `png` when the
/// source has none.
pub open spec fn asset_path_of(inbox: Seq<char>, c: CapturedContent, source: Seq<char>) -> Seq<char> {
    let ext = or_default(path_extension_of(source), "png"@);
    joined_path(joined_path(inbox, "assets"@), c.id@ + "."@ + ext)
}

pub fn workspace_asset_path(
    paths: &WorkspaceProtocolPaths,
    content: &CapturedContent,
    source_path: &str,
) -> (r: String)
    ensures
        r@ == asset_path_of(paths.inbox@, *content, source_path@),
{
    let ext = text_or(&path_extension(source_path), "png");
    let a = append(chars_of(content.id.as_str()), ".");
    let name = concat_chars(&a, &ext);
    let dir = join_path(paths.inbox.as_str(), "assets");
    join_path(dir.as_str(), string_from_chars(&name).as_str())
}

/// A raw note links the image copied into the inbox from beside it.
pub fn raw_asset_link(inbox_relative: &str) -> (r: String)
    ensures
        r@ == "../inbox/"@ + inbox_relative@,
{
    string_from_chars(&append(chars_of("../inbox/"), inbox_relative))
}

pub open spec fn has_text(o: Option<String>) -> bool {
    match o {
        Some(s) => trim(s@).len() > 0,
        None => false,
    }
}

fn nonblank(o: &Option<String>) -> (b: bool)
    ensures
        b == has_text(*o),
{
    match o {
        Some(s) => trim_chars(&chars_of(s.as_str())).len() > 0,
        None => false,
    }
}

/// A capture has been worked on once it has a summary, digest, tags or cleaned content.
pub open spec fn processed(c: CapturedContent) -> bool {
    has_text(c.summary) || has_text(c.digest) || has_text(c.tags) || has_text(c.clean_content)
}

/// Only a capture that has been worked on gets a raw note.
pub fn has_processed_signal(content: &CapturedContent) -> (b: bool)
    ensures
        b == processed(*content),
{
    nonblank(&content.summary) || nonblank(&content.digest) || nonblank(&content.tags) || nonblank(
        &content.clean_content,
    )
}

// ─── The note's title ──────────────────────────────────────────────────────

/// The first line that is not blank, trimmed.
pub open spec fn first_nonblank(ls: Seq<Seq<char>>) -> Option<Seq<char>>
    decreases ls.len(),
{
    if ls.len() == 0 {
        None
    } else if trim(ls[0]).len() > 0 {
        Some(trim(ls[0]))
    } else {
        first_nonblank(ls.drop_first())
    }
}

pub open spec fn kind_label(kind: Seq<char>) -> Seq<char> {
    if kind == "url"@ {
        "Captured link"@
    } else if kind == "image"@ {
        "Captured image"@
    } else {
        "Captured note"@
    }
}

/// The first non-blank line of the text without its leading `#`s, cut to 60 characters; when
/// that is empty, or there is no text, the kind of capture and the start of its id.
pub open spec fn markdown_title_of(c: CapturedContent) -> Seq<char> {
    let fallback = kind_label(c.content_type@) + " "@ + take_chars(c.id@, 8);
    match c.raw_text {
        Some(raw) => match first_nonblank(lines(raw@)) {
            Some(line) => {
                let t = trim(trim_start_char(line, '#'));
                if t.len() > 0 {
                    take_chars(t, 60)
                } else {
                    fallback
                }
            },
            None => fallback,
        },
        None => fallback,
    }
}

fn first_nonblank_line(ls: &Vec<Vec<char>>) -> (r: Option<Vec<char>>)
    ensures
        crate::text::opt_chars(r) == first_nonblank(views(ls@)),
{
    let mut i: usize = 0;
    assert(views(ls@).subrange(0, ls@.len() as int) =~= views(ls@));
    while i < ls.len()
        invariant
            i <= ls@.len(),
            first_nonblank(views(ls@)) == first_nonblank(views(ls@).subrange(i as int, ls@.len() as int)),
        decreases ls.len() - i,
    {
        let t = trim_chars(&ls[i]);
        let ghost rest = views(ls@).subrange(i as int, ls@.len() as int);
        assert(rest[0] == ls@[i as int]@);
        if t.len() > 0 {
            return Some(t);
        }
        assert(rest.drop_first() =~= views(ls@).subrange(i + 1, ls@.len() as int));
        i += 1;
    }
    assert(views(ls@).subrange(i as int, ls@.len() as int) =~= Seq::<Seq<char>>::empty());
    None
}

fn title_fallback(content: &CapturedContent) -> (r: Vec<char>)
    ensures
        r@ == kind_label(content.content_type@) + " "@ + take_chars(content.id@, 8),
{
    let kind = chars_of(content.content_type.as_str());
    let label = if eq_str(&kind, "url") {
        chars_of("Captured link")
    } else if eq_str(&kind, "image") {
        chars_of("Captured image")
    } else {
        chars_of("Captured note")
    };
    let a = append(label, " ");
    concat_chars(&a, &take_prefix(&chars_of(content.id.as_str()), 8))
}

pub fn markdown_title(content: &CapturedContent) -> (r: String)
    ensures
        r@ == markdown_title_of(*content),
{
    match &content.raw_text {
        Some(raw) => {
            let ls = lines_chars(&chars_of(raw.as_str()));
            match first_nonblank_line(&ls) {
                Some(line) => {
                    let t = trim_chars(&trim_start_matches_char(&line, '#'));
                    if t.len() > 0 {
                        string_from_chars(&take_prefix(&t, 60))
                    } else {
                        string_from_chars(&title_fallback(content))
                    }
                },
                None => string_from_chars(&title_fallback(content)),
            }
        },
        None => string_from_chars(&title_fallback(content)),
    }
}


// ─── The note's Markdown ───────────────────────────────────────────────────

/// The front matter: id, capture time, type, source app, the workspace layer and the source
/// address when there is one.
pub open spec fn front_matter(c: CapturedContent, layer: Seq<char>) -> Seq<char> {
    let base = "---\n"@ + "openwiki_id: "@ + c.id@ + "\n"@ + "captured_at: "@ + c.captured_at@
        + "\n"@ + "content_type: "@ + c.content_type@ + "\n"@ + "source_app: "@ + c.source_app@
        + "\n"@ + "managed_by: openwiki\n"@ + "workspace_layer: "@ + layer + "\n"@;
    let with_url = match c.source_url {
        Some(u) => base + "source_url: "@ + u@ + "\n"@,
        None => base,
    };
    with_url + "---\n\n"@
}

/// The title and the list of capture facts.
pub open spec fn header_block(c: CapturedContent) -> Seq<char> {
    let base = "# "@ + markdown_title_of(c) + "\n\n"@ + "- Captured at: "@ + c.captured_at@
        + "\n"@ + "- Source app: "@ + c.source_app@ + "\n"@ + "- Content type: "@
        + c.content_type@ + "\n"@;
    let with_url = match c.source_url {
        Some(u) => base + "- Source URL: "@ + u@ + "\n"@,
        None => base,
    };
    with_url + "\n"@
}

/// A titled section with the trimmed text, left out when the text is absent or blank.
pub open spec fn text_section(heading: Seq<char>, o: Option<String>) -> Seq<char> {
    match o {
        Some(s) => if trim(s@).len() > 0 {
            "## "@ + heading + "\n\n"@ + trim(s@) + "\n\n"@
        } else {
            Seq::empty()
        },
        None => Seq::empty(),
    }
}

/// One `- item` line per item.
pub open spec fn bullet_lines(items: Seq<Seq<char>>) -> Seq<char>
    decreases items.len(),
{
    if items.len() == 0 {
        Seq::empty()
    } else {
        bullet_lines(items.drop_last()) + "- "@ + items.last() + "\n"@
    }
}

/// The comma-separated tags as a list, blank ones left out.
pub open spec fn tags_section(o: Option<String>) -> Seq<char> {
    match o {
        Some(s) => if trim(s@).len() > 0 {
            "## Tags\n\n"@ + bullet_lines(trimmed_nonblank(split_on(s@, seq![',']))) + "\n"@
        } else {
            Seq::empty()
        },
        None => Seq::empty(),
    }
}

/// A link to the image copied next to the note.
pub open spec fn asset_section(asset: Option<Seq<char>>) -> Seq<char> {
    match asset {
        Some(p) => "## Asset\n\n"@ + "![Captured image]("@ + p + ")\n\n"@,
        None => Seq::empty(),
    }
}

/// The captured text itself, trimmed, last.
pub open spec fn content_section(o: Option<String>) -> Seq<char> {
    match o {
        Some(s) => if trim(s@).len() > 0 {
            "## Content\n\n"@ + trim(s@) + "\n"@
        } else {
            Seq::empty()
        },
        None => Seq::empty(),
    }
}

/// The whole note: front matter, title and facts, then note, summary, digest, tags, image,
/// cleaned content and the captured text, each only when present.
pub open spec fn rendered_markdown(
    c: CapturedContent,
    asset: Option<Seq<char>>,
    layer: Seq<char>,
) -> Seq<char> {
    front_matter(c, layer) + header_block(c) + text_section("Note"@, c.user_note) + text_section(
        "Summary"@,
        c.summary,
    ) + text_section("Digest"@, c.digest) + tags_section(c.tags) + asset_section(asset)
        + text_section("Clean content"@, c.clean_content) + content_section(c.raw_text)
}

fn front_matter_chars(c: &CapturedContent, layer: &str) -> (r: Vec<char>)
    ensures
        r@ == front_matter(*c, layer@),
{
    let a = append(chars_of("---\n"), "openwiki_id: ");
    let a = append(a, c.id.as_str());
    let a = append(a, "\n");
    let a = append(a, "captured_at: ");
    let a = append(a, c.captured_at.as_str());
    let a = append(a, "\n");
    let a = append(a, "content_type: ");
    let a = append(a, c.content_type.as_str());
    let a = append(a, "\n");
    let a = append(a, "source_app: ");
    let a = append(a, c.source_app.as_str());
    let a = append(a, "\n");
    let a = append(a, "managed_by: openwiki\n");
    let a = append(a, "workspace_layer: ");
    let a = append(a, layer);
    let a = append(a, "\n");
    let a = match &c.source_url {
        Some(u) => {
            let b = append(a, "source_url: ");
            let b = append(b, u.as_str());
            append(b, "\n")
        },
        None => a,
    };
    append(a, "---\n\n")
}

fn header_block_chars(c: &CapturedContent) -> (r: Vec<char>)
    ensures
        r@ == header_block(*c),
{
    let title = markdown_title(c);
    let a = append(chars_of("# "), title.as_str());
    let a = append(a, "\n\n");
    let a = append(a, "- Captured at: ");
    let a = append(a, c.captured_at.as_str());
    let a = append(a, "\n");
    let a = append(a, "- Source app: ");
    let a = append(a, c.source_app.as_str());
    let a = append(a, "\n");
    let a = append(a, "- Content type: ");
    let a = append(a, c.content_type.as_str());
    let a = append(a, "\n");
    let a = match &c.source_url {
        Some(u) => {
            let b = append(a, "- Source URL: ");
            let b = append(b, u.as_str());
            append(b, "\n")
        },
        None => a,
    };
    append(a, "\n")
}

fn text_section_chars(heading: &str, o: &Option<String>) -> (r: Vec<char>)
    ensures
        r@ == text_section(heading@, *o),
{
    match o {
        Some(s) => {
            let t = trim_chars(&chars_of(s.as_str()));
            if t.len() > 0 {
                let a = append(chars_of("## "), heading);
                let a = append(a, "\n\n");
                let a = concat_chars(&a, &t);
                append(a, "\n\n")
            } else {
                Vec::new()
            }
        },
        None => Vec::new(),
    }
}

fn tags_section_chars(o: &Option<String>) -> (r: Vec<char>)
    ensures
        r@ == tags_section(*o),
{
    match o {
        Some(s) => {
            let sc = chars_of(s.as_str());
            if trim_chars(&sc).len() == 0 {
                return Vec::new();
            }
            let seps = vec![','];
            proof {
                assert(seps@ =~= seq![',']);
            }
            let pieces = split_chars(&sc, &seps);
            let ghost sp = views(pieces@);
            let mut b: Vec<char> = Vec::new();
            let mut i: usize = 0;
            assert(sp.take(0) =~= Seq::<Seq<char>>::empty());
            while i < pieces.len()
                invariant
                    i <= pieces@.len(),
                    sp == views(pieces@),
                    b@ == bullet_lines(trimmed_nonblank(sp.take(i as int))),
                decreases pieces.len() - i,
            {
                let t = trim_chars(&pieces[i]);
                assert(sp.take(i + 1).drop_last() =~= sp.take(i as int));
                assert(sp.take(i + 1).last() == pieces@[i as int]@);
                if t.len() > 0 {
                    let ghost before = trimmed_nonblank(sp.take(i as int));
                    let c = append(b, "- ");
                    let c = concat_chars(&c, &t);
                    b = append(c, "\n");
                    assert(before.push(t@).drop_last() =~= before);
                }
                i += 1;
            }
            assert(sp.take(sp.len() as int) =~= sp);
            let a = concat_chars(&chars_of("## Tags\n\n"), &b);
            append(a, "\n")
        },
        None => Vec::new(),
    }
}

fn asset_section_chars(asset: &Option<String>) -> (r: Vec<char>)
    ensures
        r@ == asset_section(opt_string(*asset)),
{
    match asset {
        Some(p) => {
            let a = append(chars_of("## Asset\n\n"), "![Captured image](");
            let a = append(a, p.as_str());
            append(a, ")\n\n")
        },
        None => Vec::new(),
    }
}

fn content_section_chars(o: &Option<String>) -> (r: Vec<char>)
    ensures
        r@ == content_section(*o),
{
    match o {
        Some(s) => {
            let t = trim_chars(&chars_of(s.as_str()));
            if t.len() > 0 {
                let a = concat_chars(&chars_of("## Content\n\n"), &t);
                append(a, "\n")
            } else {
                Vec::new()
            }
        },
        None => Vec::new(),
    }
}

/// The Markdown note for a capture, in the given workspace layer (`inbox` or `raw`), linking
/// the copied image when there is one.
pub fn render_workspace_markdown(
    content: &CapturedContent,
    asset_relative_path: &Option<String>,
    workspace_layer: &str,
) -> (r: String)
    ensures
        r@ == rendered_markdown(*content, opt_string(*asset_relative_path), workspace_layer@),
{
    let out = front_matter_chars(content, workspace_layer);
    let out = concat_chars(&out, &header_block_chars(content));
    let out = concat_chars(&out, &text_section_chars("Note", &content.user_note));
    let out = concat_chars(&out, &text_section_chars("Summary", &content.summary));
    let out = concat_chars(&out, &text_section_chars("Digest", &content.digest));
    let out = concat_chars(&out, &tags_section_chars(&content.tags));
    let out = concat_chars(&out, &asset_section_chars(asset_relative_path));
    let out = concat_chars(&out, &text_section_chars("Clean content", &content.clean_content));
    let out = concat_chars(&out, &content_section_chars(&content.raw_text));
    string_from_chars(&out)
}

} // verus!
