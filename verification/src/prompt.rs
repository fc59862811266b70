//! The prompt package the agent receives for an authoring request.
use vstd::prelude::*;

use crate::database::Book;
use crate::media_assets::SavedImageAttachment;
use crate::models::{BookLanguage, NormalizedMessage, parse_language};
use crate::text::{
    chars_of, decimal, decimal_u64, join_first, join_seqs, push_all, push_str, string_of, trim,
    trim_seq, views,
};
use crate::workspace::{BookManifest, ManifestContentEntry};

verus! {

broadcast use vstd::string::group_string_axioms;

/// The line that lists one manifest entry.
pub open spec fn entry_line(e: ManifestContentEntry) -> Seq<char> {
    "- "@ + e.id@ + " ["@ + e.kind@ + "] -> "@ + e.file@
}

/// The value of an optional text, or `none`.
pub open spec fn or_none(o: Option<String>) -> Seq<char> {
    match o {
        Some(s) => s@,
        None => "none"@,
    }
}

/// The line that describes saved image number `n` (counted from 1).
pub open spec fn image_line(n: nat, image: SavedImageAttachment) -> Seq<char> {
    "- Image "@ + decimal(n) + ": path `"@ + image.workspace_relative_path@ + "`; markdown `"@
        + image.markdown@ + "`; MIME "@ + image.mime_type@ + "; bytes "@ + decimal(
        image.file_size as nat,
    ) + "; original filename "@ + or_none(image.original_filename) + "; dimensions "@
        + match (image.width, image.height) {
        (Some(w), Some(h)) => decimal(w as nat) + "x"@ + decimal(h as nat),
        _ => "unknown"@,
    } + "; caption "@ + or_none(image.caption)
}

/// The part of a prompt that lists the images saved from the message.
pub open spec fn image_context_spec(images: Seq<SavedImageAttachment>) -> Seq<char> {
    if images.len() == 0 {
        "Available image attachments:\n- None\n\n"@
    } else {
        "Available image attachments:\n"@ + join_seqs(
            Seq::new(images.len(), |i: int| image_line((i + 1) as nat, images[i])),
            "\n"@,
        )
            + "\nUse these workspace-relative paths when placing images in Markdown. Do not use messenger API URLs or external file URLs for these attachments.\n\n"@
    }
}

fn push_opt(v: &mut Vec<char>, o: &Option<String>)
    ensures
        final(v)@ == old(v)@ + or_none(*o),
{
    match o {
        Some(s) => push_all(v, chars_of(s.as_str()).as_slice()),
        None => push_str(v, "none"),
    }
}

fn image_line_text(n: usize, image: &SavedImageAttachment) -> (r: Vec<char>)
    ensures
        r@ == image_line(n as nat, *image),
{
    let mut v = chars_of("- Image ");
    push_all(&mut v, decimal_u64(n as u64).as_slice());
    push_str(&mut v, ": path `");
    push_all(&mut v, chars_of(image.workspace_relative_path.as_str()).as_slice());
    push_str(&mut v, "`; markdown `");
    push_all(&mut v, chars_of(image.markdown.as_str()).as_slice());
    push_str(&mut v, "`; MIME ");
    push_all(&mut v, chars_of(image.mime_type.as_str()).as_slice());
    push_str(&mut v, "; bytes ");
    push_all(&mut v, decimal_u64(image.file_size as u64).as_slice());
    push_str(&mut v, "; original filename ");
    push_opt(&mut v, &image.original_filename);
    push_str(&mut v, "; dimensions ");
    match (image.width, image.height) {
        (Some(w), Some(h)) => {
            push_all(&mut v, decimal_u64(w as u64).as_slice());
            push_str(&mut v, "x");
            push_all(&mut v, decimal_u64(h as u64).as_slice());
        },
        _ => push_str(&mut v, "unknown"),
    }
    push_str(&mut v, "; caption ");
    push_opt(&mut v, &image.caption);
    v
}

/// The part of a prompt that lists the images saved from the message.
pub fn image_context(saved_images: &Vec<SavedImageAttachment>) -> (r: String)
    ensures
        r@ == image_context_spec(saved_images@),
{
    if saved_images.len() == 0 {
        return "Available image attachments:\n- None\n\n".to_string();
    }
    let ghost lines = Seq::new(
        saved_images@.len(),
        |i: int| image_line((i + 1) as nat, saved_images@[i]),
    );
    let mut parts: Vec<Vec<char>> = Vec::new();
    let mut i: usize = 0;
    while i < saved_images.len()
        invariant
            i <= saved_images@.len(),
            lines == Seq::new(
                saved_images@.len(),
                |i: int| image_line((i + 1) as nat, saved_images@[i]),
            ),
            views(parts@) == lines.take(i as int),
        decreases saved_images.len() - i,
    {
        let line = image_line_text(i + 1, &saved_images[i]);
        let ghost before = views(parts@);
        let ghost lv = line@;
        parts.push(line);
        assert(views(parts@) =~= before.push(lv));
        assert(lines[i as int] == lv);
        assert(views(parts@) =~= lines.take(i + 1));
        i = i + 1;
    }
    assert(lines.take(saved_images@.len() as int) =~= lines);
    let joined = join_first(&parts, parts.len(), chars_of("\n").as_slice());
    assert(views(parts@).take(parts@.len() as int) =~= views(parts@));
    let mut v = chars_of("Available image attachments:\n");
    push_all(&mut v, joined.as_slice());
    push_str(
        &mut v,
        "\nUse these workspace-relative paths when placing images in Markdown. Do not use messenger API URLs or external file URLs for these attachments.\n\n",
    );
    string_of(v.as_slice())
}

/// The English name of the language a manifest records (English when it names none).
pub open spec fn manifest_language_name(code: Seq<char>) -> Seq<char> {
    match parse_language(code) {
        Some(BookLanguage::Russian) => "Russian"@,
        _ => "English"@,
    }
}

/// The prompt package for an authoring request: the rules of the workspace at
/// `workspace`, the book's metadata and structure from its manifest, the latest message,
/// the author's instruction trimmed, and the saved images.
pub open spec fn prompt_spec(
    workspace: Seq<char>,
    book: Book,
    instruction: Seq<char>,
    message: NormalizedMessage,
    images: Seq<SavedImageAttachment>,
    manifest: BookManifest,
) -> Seq<char> {
    let language = manifest_language_name(manifest.language@);
    let entries = join_seqs(
        Seq::new(manifest.content@.len(), |i: int| entry_line(manifest.content@[i])),
        "\n"@,
    );
    "Prompt package for Codex CLI authoring job\n\nSystem constraints:\n- Only modify files inside this workspace: "@
        + workspace
        + ".\n- Never read from, write to, or reference files outside this workspace.\n- Keep manuscript prose in Markdown.\n- Preserve valid YAML in workspace config files.\n- If you add or remove manuscript files, update `book.yaml` to match.\n- Make the smallest set of file changes needed for the request.\n- Communicate with the author in "@
        + language + " and keep new manuscript prose in "@ + language
        + " unless the author explicitly asks for quoted text in another language.\n\nCurrent book metadata summary:\n- Book id: "@
        + book.book_id@ + "\n- Conversation id: "@ + book.conversation_id@ + "\n- Title: "@
        + manifest.title@ + "\n- Subtitle: "@ + manifest.subtitle@ + "\n- Language: "@
        + manifest.language@ + "\n- Render profile: "@ + manifest.render_profile@
        + "\n\nCurrent manuscript structure summary:\n"@ + entries
        + "\n\nRecent conversation summary:\n- Latest author message id: "@ + message.message_id@
        + "\n- Latest author display name: "@ + message.sender_display_name@
        + "\n- No additional conversation summary is available in this MVP build.\n\nNormalized user instruction:\n"@
        + trim_seq(instruction) + "\n\n"@ + image_context_spec(images)
        + "Output constraints:\n- Apply edits directly in the workspace.\n- Do not emit patch text or prose pretending to have edited files.\n- Leave the workspace in a readable state for rendering.\n"@
}

fn entry_lines(manifest: &BookManifest) -> (r: Vec<char>)
    ensures
        r@ == join_seqs(
            Seq::new(manifest.content@.len(), |i: int| entry_line(manifest.content@[i])),
            "\n"@,
        ),
{
    let ghost lines = Seq::new(manifest.content@.len(), |i: int| entry_line(manifest.content@[i]));
    let mut parts: Vec<Vec<char>> = Vec::new();
    let mut i: usize = 0;
    while i < manifest.content.len()
        invariant
            i <= manifest.content@.len(),
            lines == Seq::new(manifest.content@.len(), |i: int| entry_line(manifest.content@[i])),
            views(parts@) == lines.take(i as int),
        decreases manifest.content.len() - i,
    {
        let e = &manifest.content[i];
        let mut v = chars_of("- ");
        push_all(&mut v, chars_of(e.id.as_str()).as_slice());
        push_str(&mut v, " [");
        push_all(&mut v, chars_of(e.kind.as_str()).as_slice());
        push_str(&mut v, "] -> ");
        push_all(&mut v, chars_of(e.file.as_str()).as_slice());
        let ghost before = views(parts@);
        let ghost lv = v@;
        assert(lv =~= entry_line(manifest.content@[i as int]));
        parts.push(v);
        assert(views(parts@) =~= before.push(lv));
        assert(lines[i as int] == lv);
        assert(views(parts@) =~= lines.take(i + 1));
        i = i + 1;
    }
    assert(lines.take(manifest.content@.len() as int) =~= lines);
    assert(views(parts@).take(parts@.len() as int) =~= views(parts@));
    join_first(&parts, parts.len(), chars_of("\n").as_slice())
}

/// The prompt package for an authoring request, given the workspace's manifest.
pub fn build_prompt(
    workspace: &str,
    book: &Book,
    instruction: &str,
    message: &NormalizedMessage,
    saved_images: &Vec<SavedImageAttachment>,
    manifest: &BookManifest,
) -> (r: String)
    ensures
        r@ == prompt_spec(workspace@, *book, instruction@, *message, saved_images@, *manifest),
{
    let language = BookLanguage::from_manifest_code(manifest.language.as_str()).display_name();
    let mut v = chars_of(
        "Prompt package for Codex CLI authoring job\n\nSystem constraints:\n- Only modify files inside this workspace: ",
    );
    push_all(&mut v, chars_of(workspace).as_slice());
    push_str(
        &mut v,
        ".\n- Never read from, write to, or reference files outside this workspace.\n- Keep manuscript prose in Markdown.\n- Preserve valid YAML in workspace config files.\n- If you add or remove manuscript files, update `book.yaml` to match.\n- Make the smallest set of file changes needed for the request.\n- Communicate with the author in ",
    );
    push_str(&mut v, language);
    push_str(&mut v, " and keep new manuscript prose in ");
    push_str(&mut v, language);
    push_str(
        &mut v,
        " unless the author explicitly asks for quoted text in another language.\n\nCurrent book metadata summary:\n- Book id: ",
    );
    push_all(&mut v, chars_of(book.book_id.as_str()).as_slice());
    push_str(&mut v, "\n- Conversation id: ");
    push_all(&mut v, chars_of(book.conversation_id.as_str()).as_slice());
    push_str(&mut v, "\n- Title: ");
    push_all(&mut v, chars_of(manifest.title.as_str()).as_slice());
    push_str(&mut v, "\n- Subtitle: ");
    push_all(&mut v, chars_of(manifest.subtitle.as_str()).as_slice());
    push_str(&mut v, "\n- Language: ");
    push_all(&mut v, chars_of(manifest.language.as_str()).as_slice());
    push_str(&mut v, "\n- Render profile: ");
    push_all(&mut v, chars_of(manifest.render_profile.as_str()).as_slice());
    push_str(&mut v, "\n\nCurrent manuscript structure summary:\n");
    push_all(&mut v, entry_lines(manifest).as_slice());
    push_str(&mut v, "\n\nRecent conversation summary:\n- Latest author message id: ");
    push_all(&mut v, chars_of(message.message_id.as_str()).as_slice());
    push_str(&mut v, "\n- Latest author display name: ");
    push_all(&mut v, chars_of(message.sender_display_name.as_str()).as_slice());
    push_str(
        &mut v,
        "\n- No additional conversation summary is available in this MVP build.\n\nNormalized user instruction:\n",
    );
    push_all(&mut v, trim(chars_of(instruction).as_slice()).as_slice());
    push_str(&mut v, "\n\n");
    push_all(&mut v, chars_of(image_context(saved_images).as_str()).as_slice());
    push_str(
        &mut v,
        "Output constraints:\n- Apply edits directly in the workspace.\n- Do not emit patch text or prose pretending to have edited files.\n- Leave the workspace in a readable state for rendering.\n",
    );
    let r = string_of(v.as_slice());
    assert(r@ =~= prompt_spec(workspace@, *book, instruction@, *message, saved_images@, *manifest));
    r
}

} // verus!
