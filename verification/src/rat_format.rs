//! The `.rat` script format: a line-oriented text form of dialogue scripts.
//!
//! ```text
//! // script: npc.default
//! // entry: greeting
//! [greeting]
//! speaker: mr. d.
//! text: hey there!
//! voice: hostile
//! hook: npc.greeting, npc.any
//! > who are you? -> identity [id: ask_identity] [hook: npc.option.identity]
//! > bye [hook: npc.leave]
//! [identity]
//! text: i am mr d.
//! -> greeting
//! ```
//!
//! Blank lines are skipped; `//` lines set the script id and entry; `[id]` opens a
//! node; inside a node `>` adds an option, `->` sets the successor and
//! `key: value` sets a field (`speaker`, `text`, `portrait`, `voice`, `hook`).

use vstd::prelude::*;

use crate::script::{
    find_node, fresh_node, ids_unique, lemma_find_node, lemma_map_take_push, node_models, node_named, opt_str, owned,
    position_of_node, strs, NodeModel, OptionModel, RatNode, RatOption, RatScript, ScriptModel,
};
use crate::script_ron::duplicate_node_message;
use crate::text::{
    append_chars, chars_eq, chars_of, decimal, decimal_chars, find_char, find_seq,
    lemma_find_seq, lemma_trim_len, starts_with, starts_with_seq, string_from_chars, sub_chars,
    trim, trim_seq,
};
use crate::voice::{voice_preset_named, VoicePreset};

verus! {

/// `std::io::Error`, carried through as it is.
#[verifier::external_type_specification]
#[verifier::external_body]
pub struct ExIoError(std::io::Error);

/// `std::str::Utf8Error`, carried through as it is.
#[verifier::external_type_specification]
#[verifier::external_body]
pub struct ExUtf8Error(core::str::Utf8Error);

/// `ron::error::SpannedError`, carried through as it is.
#[verifier::external_type_specification]
#[verifier::external_body]
pub struct ExRonError(ron::error::SpannedError);

/// Why a script asset could not be loaded.
#[derive(Debug)]
pub enum RatScriptAssetLoaderError {
    Io(std::io::Error),
    Utf8(core::str::Utf8Error),
    Ron(ron::error::SpannedError),
    Invalid(String),
    UnsupportedExtension(String),
}

// ---------------------------------------------------------------
// small pieces
// ---------------------------------------------------------------

/// `s` split at the first `c`: the part before and the part after it.
pub open spec fn split_once_spec(s: Seq<char>, c: char) -> Option<(Seq<char>, Seq<char>)> {
    match find_seq(s, c) {
        Some(k) => Some((s.take(k), s.skip(k + 1))),
        None => None,
    }
}

fn split_once(s: &[char], c: char) -> (r: Option<(Vec<char>, Vec<char>)>)
    ensures
        match split_once_spec(s@, c) {
            Some((a, b)) => r matches Some((x, y)) && x@ == a && y@ == b,
            None => r is None,
        },
{
    proof {
        lemma_find_seq(s@, c);
    }
    match find_char(s, c) {
        Some(k) => {
            let n = s.len();
            assert(k < n);
            let a = sub_chars(s, 0, k);
            let b = sub_chars(s, k + 1, s.len());
            assert(a@ =~= s@.take(k as int));
            assert(b@ =~= s@.skip(k + 1));
            Some((a, b))
        },
        None => None,
    }
}

/// Whether `->` stands at index `j` of `s`.
pub open spec fn is_arrow_at(s: Seq<char>, j: int) -> bool {
    s[j] == '-' && s[j + 1] == '>'
}

/// The index of the first `->` in `s`.
pub open spec fn find_arrow(s: Seq<char>) -> Option<int>
    decreases s.len(),
{
    if s.len() < 2 {
        None
    } else if s[0] == '-' && s[1] == '>' {
        Some(0)
    } else {
        match find_arrow(s.drop_first()) {
            Some(k) => Some(k + 1),
            None => None,
        }
    }
}

proof fn lemma_find_arrow(s: Seq<char>)
    ensures
        match find_arrow(s) {
            Some(k) => 0 <= k && k + 1 < s.len() && s[k] == '-' && s[k + 1] == '>' && forall|j: int|
                0 <= j < k ==> !#[trigger] is_arrow_at(s, j),
            None => forall|j: int| 0 <= j && j + 1 < s.len() ==> !#[trigger] is_arrow_at(s, j),
        },
    decreases s.len(),
{
    if s.len() >= 2 && !(s[0] == '-' && s[1] == '>') {
        let t = s.drop_first();
        lemma_find_arrow(t);
        assert forall|j: int| 1 <= j && j + 1 < s.len() implies #[trigger] is_arrow_at(s, j)
            == is_arrow_at(t, j - 1) by {}
    }
}

fn find_arrow_exec(s: &[char]) -> (r: Option<usize>)
    ensures
        r matches Some(k) ==> find_arrow(s@) == Some(k as int),
        r is None ==> find_arrow(s@) is None,
{
    proof {
        lemma_find_arrow(s@);
    }
    if s.len() < 2 {
        return None;
    }
    let mut k: usize = 0;
    while k < s.len() - 1
        invariant
            s@.len() >= 2,
            forall|j: int| 0 <= j < k && j + 1 < s@.len() ==> !is_arrow_at(s@, j),
            match find_arrow(s@) {
                Some(m) => 0 <= m && m + 1 < s@.len() && s@[m] == '-' && s@[m + 1] == '>' && forall|
                    j: int,
                | 0 <= j < m ==> !is_arrow_at(s@, j),
                None => forall|j: int|
                    0 <= j && j + 1 < s@.len() ==> !is_arrow_at(s@, j),
            },
        decreases s.len() - k,
    {
        if s[k] == '-' && s[k + 1] == '>' {
            assert(is_arrow_at(s@, k as int));
            proof {
                if let Some(m) = find_arrow(s@) {
                    assert(is_arrow_at(s@, m));
                }
            }
            return Some(k);
        }
        assert(!is_arrow_at(s@, k as int));
        k += 1;
    }
    proof {
        if let Some(m) = find_arrow(s@) {
            assert(is_arrow_at(s@, m));
        }
    }
    None
}

/// `t`, as a one-element list, when it is not empty.
pub open spec fn keep_nonempty(t: Seq<char>) -> Seq<Seq<char>> {
    if t.len() == 0 {
        Seq::empty()
    } else {
        seq![t]
    }
}

/// The comma-separated hooks of `raw`: each piece trimmed, empty pieces dropped.
pub open spec fn hook_pieces(raw: Seq<char>) -> Seq<Seq<char>>
    decreases raw.len(),
{
    match find_seq(raw, ',') {
        None => keep_nonempty(trim_seq(raw)),
        Some(k) => if 0 <= k < raw.len() {
            keep_nonempty(trim_seq(raw.take(k))) + hook_pieces(raw.skip(k + 1))
        } else {
            Seq::empty()
        },
    }
}

fn push_if_nonempty(hooks: &mut Vec<String>, t: &[char])
    ensures
        strs(final(hooks)@) == strs(old(hooks)@) + keep_nonempty(t@),
{
    let ghost h0 = hooks@;
    if t.len() > 0 {
        hooks.push(string_from_chars(t));
        assert(strs(hooks@) =~= strs(h0) + keep_nonempty(t@));
    } else {
        assert(strs(hooks@) =~= strs(h0) + keep_nonempty(t@));
    }
}

/// Adds the comma-separated hooks of `raw` to `hooks`.
fn extend_hooks(raw: &[char], hooks: &mut Vec<String>)
    ensures
        strs(final(hooks)@) == strs(old(hooks)@) + hook_pieces(raw@),
{
    let ghost h0 = strs(hooks@);
    let mut rest: Vec<char> = sub_chars(raw, 0, raw.len());
    assert(rest@ =~= raw@);
    loop
        invariant
            h0 == strs(old(hooks)@),
            strs(hooks@) + hook_pieces(rest@) == h0 + hook_pieces(raw@),
        decreases rest@.len(),
    {
        proof {
            lemma_find_seq(rest@, ',');
        }
        match find_char(&rest, ',') {
            None => {
                let t = trim(&rest);
                let ghost hb = strs(hooks@);
                push_if_nonempty(hooks, &t);
                assert(strs(hooks@) =~= h0 + hook_pieces(raw@));
                return;
            },
            Some(k) => {
                let piece = sub_chars(&rest, 0, k);
                let t = trim(&piece);
                let ghost hb = strs(hooks@);
                let ghost r0 = rest@;
                push_if_nonempty(hooks, &t);
                let n = rest.len();
                assert(k < n);
                let tail = sub_chars(&rest, k + 1, rest.len());
                proof {
                    assert(piece@ =~= r0.take(k as int));
                    assert(tail@ =~= r0.skip(k + 1));
                    assert(strs(hooks@) + hook_pieces(tail@) =~= hb + hook_pieces(r0));
                }
                rest = tail;
            },
        }
    }
}

/// `raw` split at its first `[`: the trimmed target before it and the trimmed
/// annotations from it on.
pub open spec fn split_target_spec(raw: Seq<char>) -> (Seq<char>, Seq<char>) {
    match find_seq(raw, '[') {
        Some(i) => (trim_seq(raw.take(i)), trim_seq(raw.skip(i))),
        None => (trim_seq(raw), Seq::empty()),
    }
}

fn split_target_and_annotations(raw: &[char]) -> (r: (Vec<char>, Vec<char>))
    ensures
        r.0@ == split_target_spec(raw@).0,
        r.1@ == split_target_spec(raw@).1,
{
    proof {
        lemma_find_seq(raw@, '[');
    }
    match find_char(raw, '[') {
        Some(i) => {
            let a = sub_chars(raw, 0, i);
            let b = sub_chars(raw, i, raw.len());
            assert(a@ =~= raw@.take(i as int));
            assert(b@ =~= raw@.skip(i as int));
            (trim(&a), trim(&b))
        },
        None => (trim(raw), Vec::new()),
    }
}

/// `opt` with one annotation applied: `hook:` adds hooks, a non-empty `id:` sets the id.
pub open spec fn apply_annotation(annotation: Seq<char>, opt: OptionModel) -> OptionModel {
    if starts_with_seq(annotation, "hook:"@) {
        OptionModel { hooks: opt.hooks + hook_pieces(annotation.skip(5)), ..opt }
    } else if starts_with_seq(annotation, "id:"@) {
        let v = trim_seq(annotation.skip(3));
        if v.len() > 0 {
            OptionModel { id: Some(v), ..opt }
        } else {
            opt
        }
    } else {
        opt
    }
}

/// `opt` with the bracketed annotations of `rem` (already trimmed) applied in order;
/// reading stops at a `[` that has no `]` after it.
pub open spec fn apply_annotations(rem: Seq<char>, opt: OptionModel) -> OptionModel
    decreases rem.len(),
{
    match find_seq(rem, '[') {
        None => opt,
        Some(start) => if 0 <= start < rem.len() {
            match find_seq(rem.skip(start + 1), ']') {
                None => opt,
                Some(end_rel) => {
                    let end = start + 1 + end_rel;
                    if end < rem.len() {
                        let annotation = trim_seq(rem.subrange(start + 1, end));
                        let next = trim_seq(rem.skip(end + 1));
                        proof {
                            lemma_find_seq(rem.skip(start + 1), ']');
                            lemma_trim_len(rem.skip(end + 1));
                        }
                        apply_annotations(next, apply_annotation(annotation, opt))
                    } else {
                        opt
                    }
                },
            }
        } else {
            opt
        },
    }
}

fn apply_annotation_exec(annotation: &[char], option: &mut RatOption)
    ensures
        final(option)@ == apply_annotation(annotation@, old(option)@),
{
    let hook_p = chars_of("hook:");
    let id_p = chars_of("id:");
    proof {
        reveal_strlit("hook:");
        reveal_strlit("id:");
    }
    if starts_with(annotation, &hook_p) {
        let value = sub_chars(annotation, 5, annotation.len());
        assert(value@ =~= annotation@.skip(5));
        extend_hooks(&value, &mut option.hooks);
    } else if starts_with(annotation, &id_p) {
        let value = sub_chars(annotation, 3, annotation.len());
        assert(value@ =~= annotation@.skip(3));
        let v = trim(&value);
        if v.len() > 0 {
            option.id = Some(string_from_chars(&v));
        }
    }
}

/// Applies the bracketed annotations of `raw` to `option`.
fn parse_option_annotations(raw: &[char], option: &mut RatOption)
    ensures
        final(option)@ == apply_annotations(trim_seq(raw@), old(option)@),
{
    let mut remaining = trim(raw);
    let ghost target = apply_annotations(trim_seq(raw@), old(option)@);
    loop
        invariant
            target == apply_annotations(trim_seq(raw@), old(option)@),
            apply_annotations(remaining@, option@) == target,
        decreases remaining@.len(),
    {
        proof {
            lemma_find_seq(remaining@, '[');
        }
        let start = match find_char(&remaining, '[') {
            Some(s) => s,
            None => {
                return;
            },
        };
        let after = sub_chars(&remaining, start + 1, remaining.len());
        assert(after@ =~= remaining@.skip(start + 1));
        proof {
            lemma_find_seq(after@, ']');
        }
        let end_rel = match find_char(&after, ']') {
            Some(e) => e,
            None => {
                return;
            },
        };
        let end = start + 1 + end_rel;
        let inner = sub_chars(&remaining, start + 1, end);
        let annotation = trim(&inner);
        apply_annotation_exec(&annotation, option);
        let tail = sub_chars(&remaining, end + 1, remaining.len());
        assert(tail@ =~= remaining@.skip(end + 1));
        proof {
            lemma_trim_len(tail@);
        }
        remaining = trim(&tail);
    }
}

/// The message of an error on line `line` of a script.
pub open spec fn line_message(line: nat, what: Seq<char>) -> Seq<char> {
    "line "@ + decimal(line) + what
}

fn line_error(line: usize, what: &str) -> (r: String)
    ensures
        r@ == line_message(line as nat, what@),
{
    let mut out = chars_of("line ");
    let digits = decimal_chars(line);
    append_chars(&mut out, &digits);
    let w = chars_of(what);
    append_chars(&mut out, &w);
    string_from_chars(&out)
}

/// What an option line (the text after `>`) gives: `text -> target [annotations]` or
/// `text [annotations]`; an empty text is an error.
pub open spec fn option_line_spec(raw: Seq<char>, line: nat) -> Result<OptionModel, Seq<char>> {
    let (text, meta, inline) = match find_arrow(raw) {
        Some(k) => (trim_seq(raw.take(k)), Some(trim_seq(raw.skip(k + 2))), Seq::<char>::empty()),
        None => (split_target_spec(trim_seq(raw)).0, None, split_target_spec(trim_seq(raw)).1),
    };
    if text.len() == 0 {
        Err(line_message(line, " has an empty option text"@))
    } else {
        let o0 = OptionModel { id: None, text, next: None, hooks: Seq::empty() };
        let o1 = match meta {
            Some(m) => {
                let (target, ann) = split_target_spec(m);
                let o = if target.len() > 0 {
                    OptionModel { next: Some(target), ..o0 }
                } else {
                    o0
                };
                apply_annotations(trim_seq(ann), o)
            },
            None => o0,
        };
        Ok(apply_annotations(trim_seq(inline), o1))
    }
}

fn parse_option_line(raw: &[char], line_number: usize) -> (r: Result<RatOption, String>)
    ensures
        match option_line_spec(raw@, line_number as nat) {
            Ok(o) => r matches Ok(x) && x@ == o,
            Err(e) => r matches Err(m) && m@ == e,
        },
{
    proof {
        lemma_find_arrow(raw@);
    }
    let (text_part, metadata, inline_annotations) = match find_arrow_exec(raw) {
        Some(k) => {
            let n = raw.len();
            assert(k + 1 < n);
            let a = sub_chars(raw, 0, k);
            let b = sub_chars(raw, k + 2, raw.len());
            assert(a@ =~= raw@.take(k as int));
            assert(b@ =~= raw@.skip(k + 2));
            (trim(&a), Some(trim(&b)), Vec::new())
        },
        None => {
            let t = trim(raw);
            let (text, annotations) = split_target_and_annotations(&t);
            (text, None, annotations)
        },
    };
    if text_part.len() == 0 {
        return Err(line_error(line_number, " has an empty option text"));
    }
    let mut option = RatOption {
        id: None,
        text: string_from_chars(&text_part),
        next: None,
        hooks: Vec::new(),
    };
    assert(strs(option.hooks@) =~= Seq::<Seq<char>>::empty());
    if let Some(meta) = metadata {
        let (target, annotations) = split_target_and_annotations(&meta);
        if target.len() > 0 {
            option.next = Some(string_from_chars(&target));
        }
        parse_option_annotations(&annotations, &mut option);
    }
    parse_option_annotations(&inline_annotations, &mut option);
    Ok(option)
}

// ---------------------------------------------------------------
// the line-by-line reading
// ---------------------------------------------------------------

/// What the reader holds between lines.
pub struct ParseModel {
    pub script_id: Seq<char>,
    pub entry: Seq<char>,
    pub nodes: Seq<NodeModel>,
    pub first: Option<Seq<char>>,
    pub current: Option<NodeModel>,
}

/// The reader with the node being read (if any) stored; a repeated id is an error.
pub open spec fn flush_spec(st: ParseModel) -> Result<ParseModel, Seq<char>> {
    match st.current {
        None => Ok(st),
        Some(n) => if node_named(st.nodes, n.id) is Some {
            Err(duplicate_node_message(n.id))
        } else {
            Ok(ParseModel { nodes: st.nodes.push(n), current: None, ..st })
        },
    }
}

/// The script id and entry after a `//` line whose text is `meta`: `script: id` and
/// `entry: node` set them when the value is not empty; anything else is a comment.
pub open spec fn metadata_spec(meta: Seq<char>, script_id: Seq<char>, entry: Seq<char>) -> (
    Seq<char>,
    Seq<char>,
) {
    match split_once_spec(meta, ':') {
        None => (script_id, entry),
        Some((k, v)) => {
            let key = trim_seq(k);
            let value = trim_seq(v);
            if value.len() == 0 {
                (script_id, entry)
            } else if key == "script"@ {
                (value, entry)
            } else if key == "entry"@ {
                (script_id, value)
            } else {
                (script_id, entry)
            }
        },
    }
}

/// `node` with the field line `key: value` applied; unknown keys change nothing.
pub open spec fn field_spec(node: NodeModel, key: Seq<char>, value: Seq<char>) -> NodeModel {
    if key == "speaker"@ {
        NodeModel { speaker: value, ..node }
    } else if key == "text"@ {
        NodeModel { text: value, ..node }
    } else if key == "portrait"@ {
        NodeModel { portrait_path: value, ..node }
    } else if key == "voice"@ {
        NodeModel { voice: voice_preset_named(value), ..node }
    } else if key == "hook"@ {
        NodeModel { hooks: node.hooks + hook_pieces(value), ..node }
    } else {
        node
    }
}

/// What one line (numbered `line` from 1) does to the reader.
pub open spec fn line_spec(st: ParseModel, text: Seq<char>, line: nat) -> Result<ParseModel, Seq<char>> {
    let raw = trim_seq(text);
    if raw.len() == 0 {
        Ok(st)
    } else if starts_with_seq(raw, "//"@) {
        let (sid, e) = metadata_spec(trim_seq(raw.skip(2)), st.script_id, st.entry);
        Ok(ParseModel { script_id: sid, entry: e, ..st })
    } else if raw[0] == '[' && raw.last() == ']' {
        match flush_spec(st) {
            Err(e) => Err(e),
            Ok(st1) => {
                let node_id = trim_seq(raw.subrange(1, raw.len() - 1));
                if node_id.len() == 0 {
                    Err(line_message(line, " has an empty node id"@))
                } else {
                    Ok(
                        ParseModel {
                            first: if st1.first is None {
                                Some(node_id)
                            } else {
                                st1.first
                            },
                            current: Some(fresh_node(node_id)),
                            ..st1
                        },
                    )
                }
            },
        }
    } else {
        match st.current {
            None => Ok(st),
            Some(node) => if raw[0] == '>' {
                match option_line_spec(trim_seq(raw.skip(1)), line) {
                    Err(e) => Err(e),
                    Ok(o) => Ok(
                        ParseModel {
                            current: Some(NodeModel { options: node.options.push(o), ..node }),
                            ..st
                        },
                    ),
                }
            } else if starts_with_seq(raw, "->"@) {
                let next = trim_seq(raw.skip(2));
                if next.len() > 0 {
                    Ok(ParseModel { current: Some(NodeModel { next: Some(next), ..node }), ..st })
                } else {
                    Ok(st)
                }
            } else {
                match split_once_spec(raw, ':') {
                    None => Ok(st),
                    Some((k, v)) => Ok(
                        ParseModel {
                            current: Some(field_spec(node, trim_seq(k), trim_seq(v))),
                            ..st
                        },
                    ),
                }
            },
        }
    }
}

/// What the lines of `rest` (the first numbered `line`) do to the reader.
pub open spec fn lines_spec(rest: Seq<char>, line: nat, st: ParseModel) -> Result<ParseModel, Seq<char>>
    decreases rest.len(),
{
    match find_seq(rest, '\n') {
        None => line_spec(st, rest, line),
        Some(k) => match line_spec(st, rest.take(k), line) {
            Err(e) => Err(e),
            Ok(st2) => if 0 <= k < rest.len() {
                lines_spec(rest.skip(k + 1), line + 1, st2)
            } else {
                Ok(st2)
            },
        },
    }
}

/// The reader before the first line.
pub open spec fn initial_parse(fallback_id: Seq<char>) -> ParseModel {
    ParseModel {
        script_id: fallback_id,
        entry: "start"@,
        nodes: Seq::empty(),
        first: None,
        current: None,
    }
}

/// What reading the script text `content` gives, with `fallback_id` as the script id
/// unless a `// script:` line names one. The entry is `start` unless a `// entry:`
/// line names another; an entry that names no node falls back to the first node.
pub open spec fn rat_script_spec(content: Seq<char>, fallback_id: Seq<char>) -> Result<
    ScriptModel,
    Seq<char>,
> {
    match lines_spec(content, 1, initial_parse(fallback_id)) {
        Err(e) => Err(e),
        Ok(st) => match flush_spec(st) {
            Err(e) => Err(e),
            Ok(st2) => if st2.nodes.len() == 0 {
                Err("script does not define any nodes"@)
            } else if node_named(st2.nodes, st2.entry) is Some {
                Ok(ScriptModel { id: st2.script_id, entry: st2.entry, nodes: st2.nodes })
            } else {
                match st2.first {
                    Some(f) => Ok(ScriptModel { id: st2.script_id, entry: f, nodes: st2.nodes }),
                    None => Err("entry node '"@ + st2.entry + "' was not found"@),
                }
            },
        },
    }
}

// ---------------------------------------------------------------
// the reader
// ---------------------------------------------------------------

/// The view of an optional character list.
pub open spec fn opt_chars(o: Option<Vec<char>>) -> Option<Seq<char>> {
    match o {
        Some(v) => Some(v@),
        None => None,
    }
}

/// The view of an optional node.
pub open spec fn opt_node(o: Option<RatNode>) -> Option<NodeModel> {
    match o {
        Some(n) => Some(n@),
        None => None,
    }
}

struct ParseState {
    script_id: Vec<char>,
    entry: Vec<char>,
    nodes: Vec<RatNode>,
    first: Option<Vec<char>>,
    current: Option<RatNode>,
}

impl ParseState {
    spec fn model(&self) -> ParseModel {
        ParseModel {
            script_id: self.script_id@,
            entry: self.entry@,
            nodes: node_models(self.nodes@),
            first: opt_chars(self.first),
            current: opt_node(self.current),
        }
    }
}

proof fn lemma_push_unique(nodes: Seq<NodeModel>, n: NodeModel)
    requires
        crate::script::ids_unique(nodes),
        node_named(nodes, n.id) is None,
    ensures
        crate::script::ids_unique(nodes.push(n)),
{
    lemma_find_node(nodes, n.id);
}

fn fresh_rat_node(id: String) -> (r: RatNode)
    ensures
        r@ == fresh_node(id@),
{
    let r = RatNode {
        id,
        speaker: owned("unknown"),
        text: String::new(),
        portrait_path: owned("models/npc_a/npc_a.png"),
        voice: VoicePreset::NeutralNpc,
        next: None,
        hooks: Vec::new(),
        options: Vec::new(),
    };
    assert(strs(r.hooks@) =~= Seq::<Seq<char>>::empty());
    assert(crate::script::option_models(r.options@) =~= Seq::<OptionModel>::empty());
    r
}

/// Stores the node being read, if any.
fn flush_current_node(st: &mut ParseState) -> (r: Result<(), String>)
    requires
        crate::script::ids_unique(old(st).model().nodes),
    ensures
        crate::script::ids_unique(final(st).model().nodes),
        match flush_spec(old(st).model()) {
            Ok(m) => r is Ok && final(st).model() == m,
            Err(e) => r matches Err(x) && x@ == e,
        },
{
    let node = match st.current.take() {
        Some(n) => n,
        None => {
            return Ok(());
        },
    };
    let key = chars_of(node.id.as_str());
    proof {
        lemma_find_node(node_models(st.nodes@), key@);
    }
    if position_of_node(&st.nodes, &key).is_some() {
        let msg = crate::script_ron::text3("duplicate node id '", node.id.as_str(), "'");
        return Err(msg);
    }
    proof {
        lemma_push_unique(node_models(st.nodes@), node@);
    }
    let ghost before = st.nodes@;
    st.nodes.push(node);
    assert(node_models(st.nodes@) =~= node_models(before).push(node@));
    Ok(())
}

fn is_key(key: &[char], name: &str) -> (r: bool)
    ensures
        r == (key@ == name@),
{
    let n = chars_of(name);
    chars_eq(key, &n)
}

/// Applies a `// key: value` line.
fn parse_metadata_comment(raw: &[char], script_id: &mut Vec<char>, entry: &mut Vec<char>)
    ensures
        (final(script_id)@, final(entry)@) == metadata_spec(raw@, old(script_id)@, old(entry)@),
{
    let (k, v) = match split_once(raw, ':') {
        Some(p) => p,
        None => {
            return;
        },
    };
    let key = trim(&k);
    let value = trim(&v);
    if value.len() == 0 {
        return;
    }
    if is_key(&key, "script") {
        *script_id = value;
    } else if is_key(&key, "entry") {
        *entry = value;
    }
}

/// Applies a `key: value` line to a node.
fn apply_field(node: &mut RatNode, key: &[char], value: &[char])
    ensures
        final(node)@ == field_spec(old(node)@, key@, value@),
{
    if is_key(key, "speaker") {
        node.speaker = string_from_chars(value);
    } else if is_key(key, "text") {
        node.text = string_from_chars(value);
    } else if is_key(key, "portrait") {
        node.portrait_path = string_from_chars(value);
    } else if is_key(key, "voice") {
        let v = string_from_chars(value);
        node.voice = VoicePreset::from_name(v.as_str());
    } else if is_key(key, "hook") {
        extend_hooks(value, &mut node.hooks);
    }
}

/// Reads one line (numbered `line` from 1).
fn parse_line(st: &mut ParseState, text: &[char], line: usize) -> (r: Result<(), String>)
    requires
        crate::script::ids_unique(old(st).model().nodes),
    ensures
        crate::script::ids_unique(final(st).model().nodes),
        match line_spec(old(st).model(), text@, line as nat) {
            Ok(m) => r is Ok && final(st).model() == m,
            Err(e) => r matches Err(x) && x@ == e,
        },
{
    let raw = trim(text);
    if raw.len() == 0 {
        return Ok(());
    }
    let comment = chars_of("//");
    proof {
        reveal_strlit("//");
        reveal_strlit("->");
    }
    if starts_with(&raw, &comment) {
        let meta = sub_chars(&raw, 2, raw.len());
        assert(meta@ =~= raw@.skip(2));
        let meta = trim(&meta);
        parse_metadata_comment(&meta, &mut st.script_id, &mut st.entry);
        return Ok(());
    }
    if raw[0] == '[' && raw[raw.len() - 1] == ']' {
        match flush_current_node(st) {
            Ok(()) => {},
            Err(e) => {
                return Err(e);
            },
        }
        let inner = sub_chars(&raw, 1, raw.len() - 1);
        let node_id = trim(&inner);
        if node_id.len() == 0 {
            return Err(line_error(line, " has an empty node id"));
        }
        if st.first.is_none() {
            st.first = Some(sub_chars(&node_id, 0, node_id.len()));
            assert(opt_chars(st.first) =~= Some(node_id@));
        }
        st.current = Some(fresh_rat_node(string_from_chars(&node_id)));
        return Ok(());
    }
    let mut node = match st.current.take() {
        Some(n) => n,
        None => {
            return Ok(());
        },
    };
    if raw[0] == '>' {
        let rest = sub_chars(&raw, 1, raw.len());
        assert(rest@ =~= raw@.skip(1));
        let rest = trim(&rest);
        match parse_option_line(&rest, line) {
            Ok(option) => {
                let ghost o0 = node.options@;
                node.options.push(option);
                assert(crate::script::option_models(node.options@) =~= crate::script::option_models(
                    o0,
                ).push(option@));
                st.current = Some(node);
                return Ok(());
            },
            Err(e) => {
                return Err(e);
            },
        }
    }
    let arrow = chars_of("->");
    if starts_with(&raw, &arrow) {
        let rest = sub_chars(&raw, 2, raw.len());
        assert(rest@ =~= raw@.skip(2));
        let next = trim(&rest);
        if next.len() > 0 {
            node.next = Some(string_from_chars(&next));
        }
        st.current = Some(node);
        return Ok(());
    }
    match split_once(&raw, ':') {
        Some((k, v)) => {
            let key = trim(&k);
            let value = trim(&v);
            apply_field(&mut node, &key, &value);
        },
        None => {},
    }
    st.current = Some(node);
    Ok(())
}

/// The first `c` in `s` at or after `from`.
fn find_char_from(s: &[char], c: char, from: usize) -> (r: Option<usize>)
    requires
        from <= s@.len(),
    ensures
        r matches Some(k) ==> from <= k < s@.len() && find_seq(s@.skip(from as int), c) == Some(
            k - from,
        ),
        r is None ==> find_seq(s@.skip(from as int), c) is None,
{
    let ghost t = s@.skip(from as int);
    proof {
        lemma_find_seq(t, c);
    }
    let mut k = from;
    while k < s.len()
        invariant
            from <= k <= s@.len(),
            t == s@.skip(from as int),
            forall|j: int| from <= j < k ==> s@[j] != c,
            match find_seq(t, c) {
                Some(m) => 0 <= m < t.len() && t[m] == c && forall|j: int| 0 <= j < m ==> t[j] != c,
                None => forall|j: int| 0 <= j < t.len() ==> t[j] != c,
            },
        decreases s.len() - k,
    {
        if s[k] == c {
            assert(t[k - from] == c);
            proof {
                if let Some(m) = find_seq(t, c) {
                    assert(t[m] == s@[m + from]);
                }
            }
            return Some(k);
        }
        assert(t[k - from] == s@[k as int]);
        k += 1;
    }
    proof {
        if let Some(m) = find_seq(t, c) {
            assert(t[m] == s@[m + from]);
        }
    }
    None
}

/// Reads a `.rat` script (see `rat_script_spec`); every failure is `Invalid` with the
/// message the specification gives.
pub fn parse_rat_script(content: &str, fallback_script_id: &str) -> (r: Result<
    RatScript,
    RatScriptAssetLoaderError,
>)
    requires
        content@.len() < usize::MAX,
    ensures
        match rat_script_spec(content@, fallback_script_id@) {
            Ok(m) => r matches Ok(s) && s@ == m && s.well_formed(),
            Err(e) => r matches Err(RatScriptAssetLoaderError::Invalid(x)) && x@ == e,
        },
{
    let chars = chars_of(content);
    let mut st = ParseState {
        script_id: chars_of(fallback_script_id),
        entry: chars_of("start"),
        nodes: Vec::new(),
        first: None,
        current: None,
    };
    assert(node_models(st.nodes@) =~= Seq::<NodeModel>::empty());
    let ghost total = lines_spec(content@, 1, st.model());
    let n = chars.len();
    let mut pos: usize = 0;
    let mut line: usize = 1;
    assert(chars@.skip(0) =~= chars@);
    assert(st.model() == initial_parse(fallback_script_id@));
    loop
        invariant_except_break
            pos <= n,
            1 <= line <= pos + 1,
            lines_spec(chars@.skip(pos as int), line as nat, st.model()) == total,
        invariant
            n == chars@.len(),
            n < usize::MAX,
            chars@ == content@,
            total == lines_spec(content@, 1, initial_parse(fallback_script_id@)),
            crate::script::ids_unique(st.model().nodes),
        ensures
            total == Ok::<ParseModel, Seq<char>>(st.model()),
        decreases n - pos,
    {
        let ghost rest = chars@.skip(pos as int);
        match find_char_from(&chars, '\n', pos) {
            None => {
                let text = sub_chars(&chars, pos, n);
                assert(text@ =~= rest);
                match parse_line(&mut st, &text, line) {
                    Ok(()) => {},
                    Err(e) => {
                        return Err(RatScriptAssetLoaderError::Invalid(e));
                    },
                }
                break ;
            },
            Some(nl) => {
                let text = sub_chars(&chars, pos, nl);
                assert(text@ =~= rest.take(nl - pos));
                match parse_line(&mut st, &text, line) {
                    Ok(()) => {},
                    Err(e) => {
                        return Err(RatScriptAssetLoaderError::Invalid(e));
                    },
                }
                assert(rest.skip(nl - pos + 1) =~= chars@.skip(nl + 1));
                pos = nl + 1;
                line += 1;
            },
        }
    }
    match flush_current_node(&mut st) {
        Ok(()) => {},
        Err(e) => {
            return Err(RatScriptAssetLoaderError::Invalid(e));
        },
    }
    if st.nodes.len() == 0 {
        return Err(RatScriptAssetLoaderError::Invalid(owned("script does not define any nodes")));
    }
    let ParseState { script_id, entry, nodes, first, current: _ } = st;
    let script = RatScript {
        id: string_from_chars(&script_id),
        entry: string_from_chars(&entry),
        nodes,
    };
    if script.contains_node(script.entry.as_str()) {
        return Ok(script);
    }
    match first {
        Some(f) => Ok(RatScript { entry: string_from_chars(&f), ..script }),
        None => Err(
            RatScriptAssetLoaderError::Invalid(
                crate::script_ron::text3("entry node '", script.entry.as_str(), "' was not found"),
            ),
        ),
    }
}

// ---------------------------------------------------------------
// what every script read from text satisfies
// ---------------------------------------------------------------

/// Whether the node being read has id `f`.
pub open spec fn current_is(c: Option<NodeModel>, f: Seq<char>) -> bool {
    match c {
        Some(n) => n.id == f,
        None => false,
    }
}

/// What the reader keeps true line after line: the finished nodes have distinct
/// ids, and the first node opened is either finished or the one being read.
pub open spec fn reader_ok(st: ParseModel) -> bool {
    &&& ids_unique(st.nodes)
    &&& st.first is None ==> st.nodes.len() == 0 && st.current is None
    &&& st.first matches Some(f) ==> (node_named(st.nodes, f) is Some || (st.nodes.len() == 0
        && current_is(st.current, f)))
}

proof fn lemma_push_keeps_named(v: Seq<NodeModel>, n: NodeModel, x: Seq<char>)
    requires
        node_named(v, x) is Some,
    ensures
        node_named(v.push(n), x) is Some,
{
    lemma_find_node(v, x);
    lemma_find_node(v.push(n), x);
    let k = find_node(v, x)->0;
    assert(v.push(n)[k] == v[k]);
}

proof fn lemma_flush_ok(st: ParseModel)
    requires
        reader_ok(st),
    ensures
        flush_spec(st) matches Ok(st2) ==> reader_ok(st2) && st2.current is None && (
        st2.first matches Some(f) ==> node_named(st2.nodes, f) is Some),
{
    match st.current {
        None => {},
        Some(n) => {
            if node_named(st.nodes, n.id) is None {
                let v = st.nodes.push(n);
                lemma_find_node(st.nodes, n.id);
                assert forall|a: int, b: int| 0 <= a < b < v.len() implies v[a].id != v[b].id by {
                    if b == v.len() - 1 {
                        assert(v[a] == st.nodes[a]);
                    } else {
                        assert(v[a] == st.nodes[a] && v[b] == st.nodes[b]);
                    }
                }
                if let Some(f) = st.first {
                    if node_named(st.nodes, f) is Some {
                        lemma_push_keeps_named(st.nodes, n, f);
                    } else {
                        lemma_find_node(v, f);
                        assert(v[0] == n);
                    }
                }
            }
        },
    }
}

proof fn lemma_line_ok(st: ParseModel, text: Seq<char>, line: nat)
    requires
        reader_ok(st),
    ensures
        line_spec(st, text, line) matches Ok(st2) ==> reader_ok(st2),
{
    lemma_flush_ok(st);
}

proof fn lemma_lines_ok(rest: Seq<char>, line: nat, st: ParseModel)
    requires
        reader_ok(st),
    ensures
        lines_spec(rest, line, st) matches Ok(st2) ==> reader_ok(st2),
    decreases rest.len(),
{
    match find_seq(rest, '\n') {
        None => lemma_line_ok(st, rest, line),
        Some(k) => {
            lemma_line_ok(st, rest.take(k), line);
            match line_spec(st, rest.take(k), line) {
                Err(_) => {},
                Ok(st2) => if 0 <= k < rest.len() {
                    lemma_lines_ok(rest.skip(k + 1), line + 1, st2);
                },
            }
        },
    }
}

/// Inside an open node, a line `key: value` that is not a comment, a node header,
/// an option or a successor sets the field its key names to the trimmed value and
/// leaves the rest of the node and the reader as they were: `speaker`, `text` and
/// `portrait` take the value itself, `voice` the preset the value names, `hook`
/// adds the hooks the value lists; any other key changes nothing.
pub proof fn law_field_line_sets_field(
    st: ParseModel,
    node: NodeModel,
    text: Seq<char>,
    line: nat,
    k: Seq<char>,
    v: Seq<char>,
)
    requires
        st.current == Some(node),
        trim_seq(text).len() > 0,
        !starts_with_seq(trim_seq(text), "//"@),
        !(trim_seq(text)[0] == '[' && trim_seq(text).last() == ']'),
        trim_seq(text)[0] != '>',
        !starts_with_seq(trim_seq(text), "->"@),
        split_once_spec(trim_seq(text), ':') == Some((k, v)),
    ensures
        line_spec(st, text, line) is Ok,
        ({
            let st2 = line_spec(st, text, line)->Ok_0;
            &&& st2.script_id == st.script_id
            &&& st2.entry == st.entry
            &&& st2.nodes == st.nodes
            &&& st2.first == st.first
            &&& st2.current is Some
        }),
        ({
            let n2 = line_spec(st, text, line)->Ok_0.current->Some_0;
            let key = trim_seq(k);
            let value = trim_seq(v);
            &&& key == "speaker"@ ==> n2 == NodeModel { speaker: value, ..node }
            &&& key == "text"@ ==> n2 == NodeModel { text: value, ..node }
            &&& key == "portrait"@ ==> n2 == NodeModel { portrait_path: value, ..node }
            &&& key == "voice"@ ==> n2 == NodeModel { voice: voice_preset_named(value), ..node }
            &&& key == "hook"@ ==> n2 == NodeModel { hooks: node.hooks + hook_pieces(value), ..node }
            &&& (key != "speaker"@ && key != "text"@ && key != "portrait"@ && key != "voice"@ && key
                != "hook"@) ==> n2 == node
        }),
{
    reveal_strlit("speaker");
    reveal_strlit("text");
    reveal_strlit("portrait");
    reveal_strlit("voice");
    reveal_strlit("hook");
    let key = trim_seq(k);
    let value = trim_seq(v);
    assert(line_spec(st, text, line)->Ok_0.current->Some_0 == field_spec(node, key, value));
    assert("speaker"@[0] != "text"@[0] && "speaker"@[0] != "portrait"@[0] && "speaker"@[0]
        != "voice"@[0] && "speaker"@[0] != "hook"@[0]);
    assert("text"@[0] != "portrait"@[0] && "text"@[0] != "voice"@[0] && "text"@[0] != "hook"@[0]);
    assert("portrait"@[0] != "voice"@[0] && "portrait"@[0] != "hook"@[0]);
    assert("voice"@[0] != "hook"@[0]);
}

/// A script read from text has distinct node ids, and its entry names one of its
/// nodes.
pub proof fn law_read_script_is_sound(content: Seq<char>, fallback_id: Seq<char>)
    ensures
        rat_script_spec(content, fallback_id) matches Ok(s) ==> ids_unique(s.nodes) && node_named(
            s.nodes,
            s.entry,
        ) is Some,
{
    lemma_lines_ok(content, 1, initial_parse(fallback_id));
    match lines_spec(content, 1, initial_parse(fallback_id)) {
        Err(_) => {},
        Ok(st) => {
            lemma_flush_ok(st);
        },
    }
}

} // verus!
