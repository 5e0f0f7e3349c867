//! Templates: texts in which `${.path.to.field}` stands for a value of the
//! command's state.
//!
//! A path starts at a document with two fields: `topic`, the name of the
//! command's topic, and `payload`, the command's payload. `${.}` stands for
//! the whole document, `${.topic}` for the topic and `${.payload.x.y}` for
//! the field `y` of the field `x` of the payload. A text value is put in as
//! it is, any other value as JSON. A path that leads to no value is replaced
//! by nothing; it is a missing reference, of which a warning is due.

use crate::json::{clone_json, get_path, value_at, Json, JsonView};
use crate::json_codec::json_printed;
use crate::text::{chars_of, owned, same_text, split, split_text, string_of, texts};
use vstd::prelude::*;

verus! {

/// The place of the first `${` at or behind `from`.
pub open spec fn find_reference_from(piece: Seq<char>, from: int) -> Option<int>
    decreases piece.len() - from,
{
    if from < 0 || from + 1 >= piece.len() {
        None
    } else if piece[from] == '$' && piece[from + 1] == '{' {
        Some(from)
    } else {
        find_reference_from(piece, from + 1)
    }
}

/// The place of the first `${` in a text.
pub open spec fn find_reference(piece: Seq<char>) -> Option<int> {
    find_reference_from(piece, 0)
}

/// The text that stands for a value: a text value as it is, another value as
/// JSON, and nothing where there is no value.
pub open spec fn value_text(value: Option<JsonView>) -> Seq<char> {
    match value {
        Some(JsonView::Text(text)) => text,
        Some(other) => match json_printed(other) {
            Some(text) => text,
            None => Seq::empty(),
        },
        None => Seq::empty(),
    }
}

/// The document that paths start from.
pub open spec fn state_document(topic: Seq<char>, payload: JsonView) -> JsonView {
    JsonView::Object(seq![("topic"@, JsonView::Text(topic)), ("payload"@, payload)])
}

/// The text that a path stands for.
pub open spec fn reference_value(topic: Seq<char>, payload: JsonView, path: Seq<char>) -> Seq<char> {
    let keys = split_text(path, '.');
    if path == "."@ {
        value_text(Some(state_document(topic, payload)))
    } else if keys.len() >= 2 && keys[0].len() == 0 && keys[1] == "topic"@ {
        if keys.len() == 2 {
            topic
        } else {
            Seq::empty()
        }
    } else if keys.len() >= 2 && keys[0].len() == 0 && keys[1] == "payload"@ {
        value_text(value_at(payload, keys.skip(2)))
    } else {
        Seq::empty()
    }
}

/// What a piece of a template that ends before a `}` becomes: where it holds
/// `${`, what follows the first one is a path, and the path's value takes the
/// place of the reference; else the piece stays, with its `}`.
pub open spec fn rendered_piece(topic: Seq<char>, payload: JsonView, piece: Seq<char>) -> Seq<char> {
    match find_reference(piece) {
        Some(at) => piece.take(at) + reference_value(topic, payload, piece.skip(at + 2)),
        None => piece.push('}'),
    }
}

/// What the pieces of a template become, one after the other.
pub open spec fn rendered_pieces(topic: Seq<char>, payload: JsonView, pieces: Seq<Seq<char>>) -> Seq<
    char,
>
    decreases pieces.len(),
{
    if pieces.len() == 0 {
        Seq::empty()
    } else {
        rendered_pieces(topic, payload, pieces.drop_last()) + rendered_piece(
            topic,
            payload,
            pieces.last(),
        )
    }
}

/// What a template becomes: the text is cut behind each `}`; each piece
/// that ends with `}` is rendered; what follows the last `}` stays.
pub open spec fn rendered(topic: Seq<char>, payload: JsonView, template: Seq<char>) -> Seq<char> {
    let pieces = split_text(template, '}');
    rendered_pieces(topic, payload, pieces.drop_last()) + pieces.last()
}

/// Whether a path leads to a value.
pub open spec fn reference_found(topic: Seq<char>, payload: JsonView, path: Seq<char>) -> bool {
    let keys = split_text(path, '.');
    if path == "."@ {
        true
    } else if keys.len() >= 2 && keys[0].len() == 0 && keys[1] == "topic"@ {
        keys.len() == 2
    } else if keys.len() >= 2 && keys[0].len() == 0 && keys[1] == "payload"@ {
        value_at(payload, keys.skip(2)) is Some
    } else {
        false
    }
}

/// The path of a piece of a template, where the piece holds a reference
/// whose path leads to no value.
pub open spec fn missing_in_piece(topic: Seq<char>, payload: JsonView, piece: Seq<char>) -> Seq<
    Seq<char>,
> {
    match find_reference(piece) {
        Some(at) => if reference_found(topic, payload, piece.skip(at + 2)) {
            Seq::empty()
        } else {
            seq![piece.skip(at + 2)]
        },
        None => Seq::empty(),
    }
}

/// The paths of the pieces of a template that lead to no value.
pub open spec fn missing_in_pieces(
    topic: Seq<char>,
    payload: JsonView,
    pieces: Seq<Seq<char>>,
) -> Seq<Seq<char>>
    decreases pieces.len(),
{
    if pieces.len() == 0 {
        Seq::empty()
    } else {
        missing_in_pieces(topic, payload, pieces.drop_last()) + missing_in_piece(
            topic,
            payload,
            pieces.last(),
        )
    }
}

/// The references of a template that are missing: the paths, in the order
/// in which they stand in the template, that lead to no value. Each is
/// replaced by nothing when the template is rendered, and a warning is due
/// for each.
pub open spec fn missing_references(topic: Seq<char>, payload: JsonView, template: Seq<char>) -> Seq<
    Seq<char>,
> {
    missing_in_pieces(topic, payload, split_text(template, '}').drop_last())
}

/// The missing references of the templates of a list, one template after
/// the other.
pub open spec fn missing_in_all(
    topic: Seq<char>,
    payload: JsonView,
    templates: Seq<Seq<char>>,
) -> Seq<Seq<char>>
    decreases templates.len(),
{
    if templates.len() == 0 {
        Seq::empty()
    } else {
        missing_in_all(topic, payload, templates.drop_last()) + missing_references(
            topic,
            payload,
            templates.last(),
        )
    }
}

fn find(piece: &Vec<char>) -> (r: Option<usize>)
    ensures
        match find_reference(piece@) {
            Some(at) => r == Some(at as usize) && 0 <= at && at + 2 <= piece@.len(),
            None => r is None,
        },
{
    let mut i: usize = 0;
    if piece.len() < 2 {
        return None;
    }
    while i < piece.len() - 1
        invariant
            piece.len() >= 2,
            i <= piece.len() - 1,
            find_reference(piece@) == find_reference_from(piece@, i as int),
        decreases piece.len() - i,
    {
        if piece[i] == '$' && piece[i + 1] == '{' {
            return Some(i);
        }
        i += 1;
    }
    None
}

fn text_of(value: Option<&Json>) -> (text: String)
    ensures
        text@ == value_text(
            match value {
                Some(json) => Some(json@),
                None => None,
            },
        ),
{
    match value {
        Some(Json::Text(text)) => text.clone(),
        Some(other) => match other.to_text() {
            Some(text) => text,
            None => String::new(),
        },
        None => String::new(),
    }
}

/// The text that a path stands for.
pub fn resolve(topic: &str, payload: &Json, path: &str) -> (text: String)
    ensures
        text@ == reference_value(topic@, payload@, path@),
{
    let keys = split(path, '.');
    assert(forall|i: int| 0 <= i < keys@.len() ==> texts(keys@)[i] == keys@[i]@);
    if same_text(path, ".") {
        let mut fields: Vec<(String, Json)> = Vec::new();
        fields.push((owned("topic"), Json::Text(owned(topic))));
        fields.push((owned("payload"), clone_json(payload)));
        let document = Json::Object(fields);
        proof {
            document.lemma_view();
            assert(document@->Object_0 =~= state_document(topic@, payload@)->Object_0);
        }
        text_of(Some(&document))
    } else if keys.len() >= 2 && keys[0].as_str().is_empty() && same_text(
        keys[1].as_str(),
        "topic",
    ) {
        if keys.len() == 2 {
            owned(topic)
        } else {
            String::new()
        }
    } else if keys.len() >= 2 && keys[0].as_str().is_empty() && same_text(
        keys[1].as_str(),
        "payload",
    ) {
        text_of(get_path(payload, &keys, 2))
    } else {
        String::new()
    }
}

/// Tells whether a path leads to a value.
pub fn is_found(topic: &str, payload: &Json, path: &str) -> (r: bool)
    ensures
        r == reference_found(topic@, payload@, path@),
{
    let keys = split(path, '.');
    assert(forall|i: int| 0 <= i < keys@.len() ==> texts(keys@)[i] == keys@[i]@);
    if same_text(path, ".") {
        true
    } else if keys.len() >= 2 && keys[0].as_str().is_empty() && same_text(
        keys[1].as_str(),
        "topic",
    ) {
        keys.len() == 2
    } else if keys.len() >= 2 && keys[0].as_str().is_empty() && same_text(
        keys[1].as_str(),
        "payload",
    ) {
        get_path(payload, &keys, 2).is_some()
    } else {
        false
    }
}

fn push_missing(out: &mut Vec<String>, topic: &str, payload: &Json, piece: &str)
    ensures
        texts(final(out)@) == texts(old(out)@) + missing_in_piece(topic@, payload@, piece@),
{
    let ghost before = texts(out@);
    let chars = chars_of(piece);
    let first = find(&chars);
    if let Some(at) = first {
        let len: usize = chars.len();
        assert(find_reference(chars@) == Some(at as int) && at + 2 <= len);
        let mut path: Vec<char> = Vec::new();
        let mut k: usize = at + 2;
        while k < chars.len()
            invariant
                at + 2 <= k <= chars.len(),
                path@ == chars@.subrange(at + 2, k as int),
            decreases chars.len() - k,
        {
            path.push(chars[k]);
            k += 1;
            assert(path@ =~= chars@.subrange(at + 2, k as int));
        }
        assert(path@ =~= chars@.skip(at + 2));
        let path = string_of(&path);
        if !is_found(topic, payload, path.as_str()) {
            out.push(path);
            assert(texts(out@) =~= before + seq![path@]);
            return ;
        }
    }
    assert(before =~= before + Seq::<Seq<char>>::empty());
}

/// Adds to a list the references of a template that are missing.
pub fn push_missing_references(out: &mut Vec<String>, topic: &str, payload: &Json, template: &str)
    ensures
        texts(final(out)@) == texts(old(out)@) + missing_references(
            topic@,
            payload@,
            template@,
        ),
{
    let ghost before = texts(out@);
    let pieces = split(template, '}');
    let ghost all = texts(pieces@);
    let mut i: usize = 0;
    assert(all.drop_last().take(0) =~= Seq::<Seq<char>>::empty());
    assert(before =~= before + Seq::<Seq<char>>::empty());
    while i < pieces.len() - 1
        invariant
            i + 1 <= pieces.len(),
            all == texts(pieces@),
            texts(out@) == before + missing_in_pieces(
                topic@,
                payload@,
                all.drop_last().take(i as int),
            ),
        decreases pieces.len() - i,
    {
        let ghost so_far = missing_in_pieces(topic@, payload@, all.drop_last().take(i as int));
        proof {
            let next = all.drop_last().take(i + 1);
            assert(next.drop_last() =~= all.drop_last().take(i as int));
            assert(next.last() == pieces@[i as int]@);
        }
        push_missing(out, topic, payload, pieces[i].as_str());
        assert(texts(out@) =~= before + (so_far + missing_in_piece(
            topic@,
            payload@,
            pieces@[i as int]@,
        )));
        i += 1;
    }
    assert(all.drop_last().take(i as int) =~= all.drop_last());
}

/// The references of a template that are missing.
pub fn missing(topic: &str, payload: &Json, template: &str) -> (paths: Vec<String>)
    ensures
        texts(paths@) == missing_references(topic@, payload@, template@),
{
    let mut paths: Vec<String> = Vec::new();
    assert(texts(paths@) =~= Seq::<Seq<char>>::empty());
    push_missing_references(&mut paths, topic, payload, template);
    assert(Seq::<Seq<char>>::empty() + missing_references(topic@, payload@, template@)
        =~= missing_references(topic@, payload@, template@));
    paths
}

fn push_piece(out: &mut Vec<char>, topic: &str, payload: &Json, piece: &str)
    ensures
        final(out)@ == old(out)@ + rendered_piece(topic@, payload@, piece@),
{
    let chars = chars_of(piece);
    match find(&chars) {
        Some(at) => {
            let mut i: usize = 0;
            while i < at
                invariant
                    i <= at <= chars.len(),
                    out@ == old(out)@ + chars@.take(i as int),
                decreases at - i,
            {
                out.push(chars[i]);
                i += 1;
                assert(chars@.take(i as int) =~= chars@.take(i - 1).push(chars@[i - 1]));
            }
            let mut path: Vec<char> = Vec::new();
            let mut k: usize = at + 2;
            while k < chars.len()
                invariant
                    at + 2 <= k <= chars.len(),
                    path@ == chars@.subrange(at + 2, k as int),
                decreases chars.len() - k,
            {
                path.push(chars[k]);
                k += 1;
                assert(path@ =~= chars@.subrange(at + 2, k as int));
            }
            assert(path@ =~= chars@.skip(at + 2));
            let value = chars_of(resolve(topic, payload, string_of(&path).as_str()).as_str());
            let ghost before = out@;
            let mut j: usize = 0;
            while j < value.len()
                invariant
                    j <= value.len(),
                    out@ == before + value@.take(j as int),
                decreases value.len() - j,
            {
                out.push(value[j]);
                j += 1;
                assert(value@.take(j as int) =~= value@.take(j - 1).push(value@[j - 1]));
            }
            assert(value@.take(value.len() as int) =~= value@);
            assert(out@ =~= old(out)@ + (chars@.take(at as int) + value@));
        },
        None => {
            let mut i: usize = 0;
            while i < chars.len()
                invariant
                    i <= chars.len(),
                    out@ == old(out)@ + chars@.take(i as int),
                decreases chars.len() - i,
            {
                out.push(chars[i]);
                i += 1;
                assert(chars@.take(i as int) =~= chars@.take(i - 1).push(chars@[i - 1]));
            }
            assert(chars@.take(chars.len() as int) =~= chars@);
            out.push('}');
            assert(out@ =~= old(out)@ + chars@.push('}'));
        },
    }
}

/// Puts the values of a command's state into a template. A reference that
/// is missing is replaced by nothing; `missing` tells which are, so that a
/// warning can be given for each.
pub fn render(topic: &str, payload: &Json, template: &str) -> (text: String)
    ensures
        text@ == rendered(topic@, payload@, template@),
{
    let pieces = split(template, '}');
    let ghost all = texts(pieces@);
    let mut out: Vec<char> = Vec::new();
    let mut i: usize = 0;
    assert(all.drop_last().take(0) =~= Seq::<Seq<char>>::empty());
    while i < pieces.len() - 1
        invariant
            i + 1 <= pieces.len(),
            all == texts(pieces@),
            out@ == rendered_pieces(topic@, payload@, all.drop_last().take(i as int)),
        decreases pieces.len() - i,
    {
        proof {
            let next = all.drop_last().take(i + 1);
            assert(next.drop_last() =~= all.drop_last().take(i as int));
            assert(next.last() == pieces@[i as int]@);
        }
        push_piece(&mut out, topic, payload, pieces[i].as_str());
        i += 1;
    }
    assert(all.drop_last().take(i as int) =~= all.drop_last());
    let last = chars_of(pieces[pieces.len() - 1].as_str());
    let ghost before = out@;
    let mut k: usize = 0;
    while k < last.len()
        invariant
            k <= last.len(),
            out@ == before + last@.take(k as int),
        decreases last.len() - k,
    {
        out.push(last[k]);
        k += 1;
        assert(last@.take(k as int) =~= last@.take(k - 1).push(last@[k - 1]));
    }
    assert(last@.take(last.len() as int) =~= last@);
    assert(all.last() == last@);
    string_of(&out)
}

} // verus!
