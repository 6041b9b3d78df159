//! Paths of the resources of a server.
//!
//! A path names a database, a document, an attachment, a design document or
//! a view by its segments: `/db`, `/db/doc`, `/db/doc/attachment`. Each kind
//! of resource has a fixed number of segments. A segment is never empty and
//! holds no slash, and a path is written with a slash before each segment
//! and none at its end.

use crate::error::{ChillError, ErrorView, PathFault, PathParseErrorKind};
use crate::text::{char_count, contains_char, same_text, texts};
use vstd::prelude::*;
use vstd::string::*;

verus! {

/// The kinds of resource that a path can name.
#[derive(Clone, Copy, Debug, PartialEq, Eq, Structural)]
pub enum ResourceKind {
    /// A database: `/db`.
    Database,
    /// A document of a database: `/db/doc`.
    Document,
    /// An attachment of a document: `/db/doc/attachment`.
    Attachment,
    /// A design document of a database: `/db/design`.
    DesignDocument,
    /// A view of a design document: `/db/design/view`.
    DesignView,
}

impl ResourceKind {
    /// The number of segments that a path of this kind has.
    pub open spec fn segment_count(self) -> nat {
        match self {
            ResourceKind::Database => 1,
            ResourceKind::Document => 2,
            ResourceKind::Attachment => 3,
            ResourceKind::DesignDocument => 2,
            ResourceKind::DesignView => 3,
        }
    }

    /// The number of segments that a path of this kind has.
    pub fn segments(&self) -> (r: usize)
        ensures
            r == self.segment_count(),
    {
        match self {
            ResourceKind::Database => 1,
            ResourceKind::Document => 2,
            ResourceKind::Attachment => 3,
            ResourceKind::DesignDocument => 2,
            ResourceKind::DesignView => 3,
        }
    }
}

/// The path of a resource: its kind and its segments.
#[derive(Debug, Eq)]
pub struct ResourcePath {
    kind: ResourceKind,
    segments: Vec<String>,
}

/// What a path holds, as plain values.
pub struct ResourcePathView {
    /// The kind of resource that the path names.
    pub kind: ResourceKind,
    /// The segments of the path, in order.
    pub segments: Seq<Seq<char>>,
}

/// `segment` can be a segment of a path: it is not empty and holds no slash.
pub open spec fn is_segment(segment: Seq<char>) -> bool {
    segment.len() > 0 && !segment.contains('/')
}

/// The rule that `segment` breaks, if it breaks one.
pub open spec fn check_segment(segment: Seq<char>) -> Option<PathFault> {
    if segment.len() == 0 {
        Some(PathFault::EmptySegment)
    } else if segment.contains('/') {
        Some(PathFault::BadSegment("/"@))
    } else {
        None
    }
}

/// The rule that the first bad segment of `segments` breaks, if there is a
/// bad segment.
pub open spec fn check_segments(segments: Seq<Seq<char>>) -> Option<PathFault>
    decreases segments.len(),
{
    if segments.len() == 0 {
        None
    } else {
        match check_segments(segments.drop_last()) {
            Some(fault) => Some(fault),
            None => check_segment(segments.last()),
        }
    }
}

/// `path` is a path: it has the number of segments of its kind, and each of
/// them can be a segment.
pub open spec fn is_path(path: ResourcePathView) -> bool {
    &&& path.segments.len() == path.kind.segment_count()
    &&& forall|i: int| 0 <= i < path.segments.len() ==> is_segment(#[trigger] path.segments[i])
}

/// The text of a list of segments: a slash before each segment.
pub open spec fn render_segments(segments: Seq<Seq<char>>) -> Seq<char>
    decreases segments.len(),
{
    if segments.len() == 0 {
        Seq::empty()
    } else {
        render_segments(segments.drop_last()) + seq!['/'] + segments.last()
    }
}

/// The text of a path.
pub open spec fn render_path(path: ResourcePathView) -> Seq<char> {
    render_segments(path.segments)
}

/// The pieces that `text` falls into when it is cut at every slash. There is
/// always at least one piece; a piece is empty where two slashes meet and
/// where the text begins or ends with one.
pub open spec fn split_segments(text: Seq<char>) -> Seq<Seq<char>>
    decreases text.len(),
{
    if text.len() == 0 {
        seq![Seq::empty()]
    } else {
        let pieces = split_segments(text.drop_last());
        if text.last() == '/' {
            pieces.push(Seq::empty())
        } else {
            pieces.update(pieces.len() - 1, pieces.last().push(text.last()))
        }
    }
}

/// What a list of segments is checked for when a path of kind `kind` is made
/// of it: the number of segments first, then each segment in order.
pub open spec fn check_path(kind: ResourceKind, segments: Seq<Seq<char>>) -> Option<PathFault> {
    if segments.len() < kind.segment_count() {
        Some(PathFault::TooFewSegments)
    } else if segments.len() > kind.segment_count() {
        Some(PathFault::TooManySegments)
    } else {
        check_segments(segments)
    }
}

/// The path of kind `kind` that `text` stands for, or the first rule that it
/// breaks. The text must begin with a slash and may not end with one; what
/// follows the first slash is cut at every slash, and the pieces are checked
/// as the segments of a new path are.
pub open spec fn parse_path(kind: ResourceKind, text: Seq<char>) -> Result<
    ResourcePathView,
    PathFault,
> {
    let segments = split_segments(text.subrange(1, text.len() as int));
    if text.len() == 0 || text[0] != '/' {
        Err(PathFault::NoLeadingSlash)
    } else if text.last() == '/' {
        Err(PathFault::TrailingSlash)
    } else {
        match check_path(kind, segments) {
            Some(fault) => Err(fault),
            None => Ok(ResourcePathView { kind, segments }),
        }
    }
}

/// Cutting a text gives at least one piece, and no piece holds a slash.
pub proof fn lemma_split_segments(text: Seq<char>)
    ensures
        split_segments(text).len() >= 1,
        forall|i: int|
            0 <= i < split_segments(text).len() ==> !(#[trigger] split_segments(text)[i]).contains(
                '/',
            ),
    decreases text.len(),
{
    if text.len() > 0 {
        lemma_split_segments(text.drop_last());
        let pieces = split_segments(text.drop_last());
        let all = split_segments(text);
        assert forall|i: int| 0 <= i < all.len() implies !(#[trigger] all[i]).contains('/') by {
            if text.last() == '/' {
                if i < pieces.len() {
                    assert(all[i] == pieces[i]);
                } else {
                    assert(all[i] =~= Seq::<char>::empty());
                }
            } else {
                if i < pieces.len() - 1 {
                    assert(all[i] == pieces[i]);
                } else {
                    let grown = pieces.last().push(text.last());
                    assert(all[i] == grown);
                    assert(!pieces.last().contains('/'));
                    if grown.contains('/') {
                        let at = choose|at: int| 0 <= at < grown.len() && grown[at] == '/';
                        if at < pieces.last().len() {
                            assert(pieces.last()[at] == '/');
                        }
                    }
                }
            }
        }
    }
}

/// Segments that pass the check are segments, and the other way round.
pub proof fn lemma_check_segments(segments: Seq<Seq<char>>)
    ensures
        check_segments(segments) is None <==> (forall|i: int|
            0 <= i < segments.len() ==> is_segment(#[trigger] segments[i])),
    decreases segments.len(),
{
    if segments.len() > 0 {
        let head = segments.drop_last();
        lemma_check_segments(head);
        assert(forall|i: int| 0 <= i < head.len() ==> head[i] == segments[i]);
        if check_segments(head) is Some {
            let bad = choose|i: int| 0 <= i < head.len() && !is_segment(#[trigger] head[i]);
            assert(segments[bad] == head[bad]);
        } else {
            assert forall|i: int| 0 <= i < head.len() implies is_segment(
                #[trigger] segments[i],
            ) by {
                assert(head[i] == segments[i]);
            }
            if check_segment(segments.last()) is Some {
                assert(!is_segment(segments[segments.len() - 1]));
            }
        }
    }
}

/// Cutting a text that ends with a piece without a slash: the piece is
/// added to the last piece of what comes before it.
proof fn lemma_split_append(text: Seq<char>, piece: Seq<char>)
    requires
        !piece.contains('/'),
    ensures
        split_segments(text + piece) == split_segments(text).update(
            split_segments(text).len() - 1,
            split_segments(text).last() + piece,
        ),
    decreases piece.len(),
{
    lemma_split_segments(text);
    let pieces = split_segments(text);
    if piece.len() == 0 {
        assert(text + piece =~= text);
        assert(pieces.last() + piece =~= pieces.last());
        assert(pieces.update(pieces.len() - 1, pieces.last()) =~= pieces);
    } else {
        let shorter = piece.drop_last();
        assert forall|i: int| 0 <= i < shorter.len() implies shorter[i] != '/' by {
            assert(piece[i] == shorter[i]);
            assert(piece.contains(piece[i]));
        }
        lemma_split_append(text, shorter);
        assert((text + piece).drop_last() =~= text + shorter);
        assert((text + piece).last() == piece.last());
        assert(piece.contains(piece.last()));
        assert((pieces.last() + shorter).push(piece.last()) =~= pieces.last() + piece);
        let before = split_segments(text + shorter);
        assert(before.update(before.len() - 1, before.last().push(piece.last())) =~= pieces.update(
            pieces.len() - 1,
            pieces.last() + piece,
        ));
    }
}

/// Cutting the text of segments gives the segments back, after one empty
/// piece for what stands before the first slash.
proof fn lemma_split_render(segments: Seq<Seq<char>>)
    requires
        forall|i: int| 0 <= i < segments.len() ==> !(#[trigger] segments[i]).contains('/'),
    ensures
        split_segments(render_segments(segments)) == seq![Seq::<char>::empty()] + segments,
    decreases segments.len(),
{
    if segments.len() == 0 {
        assert(seq![Seq::<char>::empty()] + segments =~= seq![Seq::<char>::empty()]);
    } else {
        let head = segments.drop_last();
        assert forall|i: int| 0 <= i < head.len() implies !(#[trigger] head[i]).contains('/') by {
            assert(head[i] == segments[i]);
        }
        lemma_split_render(head);
        let before = render_segments(head) + seq!['/'];
        assert(before.drop_last() =~= render_segments(head));
        assert(split_segments(before) == split_segments(render_segments(head)).push(
            Seq::empty(),
        ));
        lemma_split_append(before, segments.last());
        assert(Seq::<char>::empty() + segments.last() =~= segments.last());
        assert(split_segments(before + segments.last()) =~= seq![Seq::<char>::empty()]
            + segments);
    }
}

/// The text of one or more segments begins with a slash, and what follows
/// that slash is the segments with a slash between them.
proof fn lemma_render_shape(segments: Seq<Seq<char>>)
    requires
        segments.len() >= 1,
    ensures
        render_segments(segments).len() >= 1 + segments.last().len(),
        render_segments(segments)[0] == '/',
        segments.last().len() > 0 ==> render_segments(segments).last() == segments.last().last(),
    decreases segments.len(),
{
    let head = segments.drop_last();
    if head.len() == 0 {
        assert(render_segments(head) =~= Seq::<char>::empty());
    } else {
        lemma_render_shape(head);
    }
}

/// Cutting a text that begins with a slash gives an empty first piece, and
/// the other pieces are those of what follows the slash.
proof fn lemma_split_after_slash(text: Seq<char>)
    ensures
        split_segments(seq!['/'] + text) == seq![Seq::<char>::empty()] + split_segments(text),
    decreases text.len(),
{
    let whole = seq!['/'] + text;
    if text.len() == 0 {
        assert(whole.drop_last() =~= text);
        assert(whole.last() == '/');
        assert(split_segments(text) =~= seq![Seq::<char>::empty()]);
        assert(split_segments(whole) == split_segments(text).push(Seq::empty()));
        assert(split_segments(whole) =~= seq![Seq::<char>::empty()] + split_segments(text));
    } else {
        lemma_split_after_slash(text.drop_last());
        lemma_split_segments(text.drop_last());
        assert(whole.drop_last() =~= seq!['/'] + text.drop_last());
        assert(whole.last() == text.last());
        assert(split_segments(whole) =~= seq![Seq::<char>::empty()] + split_segments(text));
    }
}

/// The text of a path begins with a slash and does not end with one.
pub proof fn law_render_shape(path: ResourcePathView)
    requires
        is_path(path),
    ensures
        render_path(path).len() >= 2,
        render_path(path)[0] == '/',
        render_path(path).last() != '/',
{
    lemma_render_shape(path.segments);
    let last = path.segments.last();
    assert(is_segment(path.segments[path.segments.len() - 1]));
    assert(last.contains(last.last()));
}

/// Reading the text of a path gives the path back: for every path, `parse`
/// of `render` is the identity.
pub proof fn law_parse_render(path: ResourcePathView)
    requires
        is_path(path),
    ensures
        parse_path(path.kind, render_path(path)) matches Ok(read) && read == path,
{
    let text = render_path(path);
    let body = text.subrange(1, text.len() as int);
    lemma_render_shape(path.segments);
    assert(path.segments.last().len() > 0 && !path.segments.last().contains('/')) by {
        assert(is_segment(path.segments[path.segments.len() - 1]));
    }
    assert(text.last() != '/') by {
        let last = path.segments.last();
        assert(last.contains(last.last()));
    }
    assert forall|i: int| 0 <= i < path.segments.len() implies !(
    #[trigger] path.segments[i]).contains('/') by {
        assert(is_segment(path.segments[i]));
    }
    lemma_split_render(path.segments);
    assert(text =~= seq!['/'] + body);
    lemma_split_after_slash(body);
    let pieces = split_segments(body);
    assert(pieces =~= path.segments) by {
        let left = seq![Seq::<char>::empty()] + pieces;
        let right = seq![Seq::<char>::empty()] + path.segments;
        assert(left == right);
        assert(pieces.len() == path.segments.len()) by {
            assert(left.len() == right.len());
        }
        assert forall|i: int| 0 <= i < pieces.len() implies pieces[i] == path.segments[i] by {
            assert(left[i + 1] == right[i + 1]);
        }
    }
    lemma_check_segments(path.segments);
}

/// The text of the pieces of a text is the text after a slash.
proof fn lemma_render_split(text: Seq<char>)
    ensures
        render_segments(split_segments(text)) == seq!['/'] + text,
    decreases text.len(),
{
    if text.len() == 0 {
        let pieces = split_segments(text);
        assert(pieces.drop_last() =~= Seq::<Seq<char>>::empty());
        assert(render_segments(pieces.drop_last()) =~= Seq::<char>::empty());
        assert(render_segments(pieces) =~= seq!['/'] + text);
    } else {
        lemma_render_split(text.drop_last());
        lemma_split_segments(text.drop_last());
        let pieces = split_segments(text.drop_last());
        let all = split_segments(text);
        if text.last() == '/' {
            assert(all.drop_last() =~= pieces);
            assert(all.last() =~= Seq::<char>::empty());
            assert(render_segments(all) =~= seq!['/'] + text);
        } else {
            assert(all.drop_last() =~= pieces.drop_last());
            assert(all.last() == pieces.last().push(text.last()));
            assert(render_segments(all) =~= render_segments(pieces).push(text.last()));
            assert(render_segments(all) =~= seq!['/'] + text);
        }
    }
}

/// A text that `parse` accepts is the text of the path that `parse` gives,
/// and that path is a path of the kind that was asked for.
pub proof fn law_render_parse(kind: ResourceKind, text: Seq<char>)
    ensures
        parse_path(kind, text) matches Ok(path) ==> render_path(path) == text && is_path(path)
            && path.kind == kind,
{
    if let Ok(path) = parse_path(kind, text) {
        let body = text.subrange(1, text.len() as int);
        lemma_render_split(body);
        assert(text =~= seq!['/'] + body);
        lemma_check_segments(path.segments);
    }
}

/// A text is accepted as a path of one kind only through its number of
/// segments: with fewer segments than the kind has it is refused as having
/// too few, with more as having too many.
pub proof fn law_segment_count(kind: ResourceKind, text: Seq<char>)
    requires
        text.len() > 0,
        text[0] == '/',
        text.last() != '/',
    ensures
        split_segments(text.subrange(1, text.len() as int)).len() < kind.segment_count()
            ==> (parse_path(kind, text) matches Err(fault) && fault == PathFault::TooFewSegments),
        split_segments(text.subrange(1, text.len() as int)).len() > kind.segment_count()
            ==> (parse_path(kind, text) matches Err(fault) && fault
            == PathFault::TooManySegments),
{
}

impl View for ResourcePath {
    type V = ResourcePathView;

    closed spec fn view(&self) -> ResourcePathView {
        ResourcePathView { kind: self.kind, segments: texts(self.segments@) }
    }
}

/// What an optional kind of path error holds.
pub open spec fn option_fault(kind: Option<PathParseErrorKind>) -> Option<PathFault> {
    match kind {
        Some(kind) => Some(kind@),
        None => None,
    }
}

/// Tells which rule a segment breaks, if it breaks one.
pub fn check_one_segment(segment: &str) -> (r: Option<PathParseErrorKind>)
    ensures
        option_fault(r) == check_segment(segment@),
{
    if segment.is_empty() {
        Some(PathParseErrorKind::EmptySegment)
    } else if contains_char(segment, '/') {
        Some(PathParseErrorKind::BadSegment("/"))
    } else {
        None
    }
}

/// Cuts a text at every slash.
pub fn split_at_slashes(text: &str) -> (r: Vec<String>)
    ensures
        texts(r@) == split_segments(text@),
{
    let length = char_count(text);
    let mut pieces: Vec<String> = Vec::new();
    let mut start: usize = 0;
    let mut i: usize = 0;
    assert(text@.take(0) =~= Seq::<char>::empty());
    assert(texts(pieces@).push(text@.subrange(0, 0)) =~= seq![Seq::<char>::empty()]);
    for c in it: text.chars()
        invariant
            it.seq() == text@,
            length == text@.len(),
            i == it.index(),
            start <= i,
            split_segments(text@.take(i as int)) == texts(pieces@).push(
                text@.subrange(start as int, i as int),
            ),
    {
        let ghost before = texts(pieces@);
        let ghost open = text@.subrange(start as int, i as int);
        proof {
            let next = text@.take(i + 1);
            assert(next.drop_last() =~= text@.take(i as int));
            assert(next.last() == c);
        }
        if c == '/' {
            pieces.push(String::from_str(text.substring_char(start, i)));
            start = i + 1;
            proof {
                assert(texts(pieces@) =~= before.push(open));
                assert(text@.subrange(start as int, i + 1) =~= Seq::<char>::empty());
            }
        } else {
            proof {
                assert(open.push(c) =~= text@.subrange(start as int, i + 1));
                assert(before.push(open).update(before.len() as int, open.push(c))
                    =~= before.push(open.push(c)));
            }
        }
        i += 1;
    }
    let ghost before = texts(pieces@);
    pieces.push(String::from_str(text.substring_char(start, length)));
    proof {
        assert(text@.take(length as int) =~= text@);
        assert(texts(pieces@) =~= before.push(text@.subrange(start as int, length as int)));
    }
    pieces
}

impl ResourcePath {
    #[verifier::type_invariant]
    spec fn well_formed(self) -> bool {
        is_path(self@)
    }

    /// Makes a path of kind `kind` from its segments. The number of
    /// segments is checked first, then each segment in order.
    pub fn from_segments(kind: ResourceKind, segments: Vec<String>) -> (r: Result<
        ResourcePath,
        ChillError,
    >)
        ensures
            match r {
                Ok(path) => check_path(kind, texts(segments@)) is None && path@ == (
                ResourcePathView { kind, segments: texts(segments@) }) && is_path(path@),
                Err(e) => e@ matches ErrorView::PathParse(fault) && check_path(
                    kind,
                    texts(segments@),
                ) == Some(fault),
            },
    {
        let count = kind.segments();
        if segments.len() < count {
            return Err(ChillError::PathParse(PathParseErrorKind::TooFewSegments));
        }
        if segments.len() > count {
            return Err(ChillError::PathParse(PathParseErrorKind::TooManySegments));
        }
        let ghost all = texts(segments@);
        let mut i: usize = 0;
        while i < segments.len()
            invariant
                i <= segments.len(),
                segments.len() == kind.segment_count(),
                all == texts(segments@),
                check_segments(all.take(i as int)) is None,
            decreases segments.len() - i,
        {
            proof {
                let next = all.take(i + 1);
                assert(next.drop_last() =~= all.take(i as int));
                assert(next.last() == segments@[i as int]@);
            }
            match check_one_segment(segments[i].as_str()) {
                Some(broken) => {
                    proof {
                        assert(check_segments(all.take(i + 1)) == Some(broken@));
                        lemma_check_segments_stays(all, i + 1);
                    }
                    return Err(ChillError::PathParse(broken));
                },
                None => {},
            }
            i += 1;
        }
        proof {
            assert(all.take(i as int) =~= all);
            lemma_check_segments(all);
        }
        Ok(ResourcePath { kind, segments })
    }

    /// The path of the database `name`.
    pub fn database(name: &str) -> (r: Result<ResourcePath, ChillError>)
        ensures
            match r {
                Ok(path) => path@ == (ResourcePathView {
                    kind: ResourceKind::Database,
                    segments: seq![name@],
                }) && is_path(path@),
                Err(e) => e@ matches ErrorView::PathParse(fault) && check_segments(seq![name@])
                    == Some(fault),
            },
    {
        let mut segments: Vec<String> = Vec::new();
        segments.push(String::from_str(name));
        assert(texts(segments@) =~= seq![name@]);
        ResourcePath::from_segments(ResourceKind::Database, segments)
    }

    /// The path of the document `document` of the database `database`.
    pub fn document(database: &str, document: &str) -> (r: Result<ResourcePath, ChillError>)
        ensures
            match r {
                Ok(path) => path@ == (ResourcePathView {
                    kind: ResourceKind::Document,
                    segments: seq![database@, document@],
                }) && is_path(path@),
                Err(e) => e@ matches ErrorView::PathParse(fault) && check_segments(
                    seq![database@, document@],
                ) == Some(fault),
            },
    {
        let mut segments: Vec<String> = Vec::new();
        segments.push(String::from_str(database));
        segments.push(String::from_str(document));
        assert(texts(segments@) =~= seq![database@, document@]);
        ResourcePath::from_segments(ResourceKind::Document, segments)
    }

    /// The path of the attachment `attachment` of the document `document`
    /// of the database `database`.
    pub fn attachment(database: &str, document: &str, attachment: &str) -> (r: Result<
        ResourcePath,
        ChillError,
    >)
        ensures
            match r {
                Ok(path) => path@ == (ResourcePathView {
                    kind: ResourceKind::Attachment,
                    segments: seq![database@, document@, attachment@],
                }) && is_path(path@),
                Err(e) => e@ matches ErrorView::PathParse(fault) && check_segments(
                    seq![database@, document@, attachment@],
                ) == Some(fault),
            },
    {
        let mut segments: Vec<String> = Vec::new();
        segments.push(String::from_str(database));
        segments.push(String::from_str(document));
        segments.push(String::from_str(attachment));
        assert(texts(segments@) =~= seq![database@, document@, attachment@]);
        ResourcePath::from_segments(ResourceKind::Attachment, segments)
    }

    /// The path of the design document `design` of the database
    /// `database`.
    pub fn design_document(database: &str, design: &str) -> (r: Result<ResourcePath, ChillError>)
        ensures
            match r {
                Ok(path) => path@ == (ResourcePathView {
                    kind: ResourceKind::DesignDocument,
                    segments: seq![database@, design@],
                }) && is_path(path@),
                Err(e) => e@ matches ErrorView::PathParse(fault) && check_segments(
                    seq![database@, design@],
                ) == Some(fault),
            },
    {
        let mut segments: Vec<String> = Vec::new();
        segments.push(String::from_str(database));
        segments.push(String::from_str(design));
        assert(texts(segments@) =~= seq![database@, design@]);
        ResourcePath::from_segments(ResourceKind::DesignDocument, segments)
    }

    /// The path of the view `view` of the design document `design` of the
    /// database `database`.
    pub fn design_view(database: &str, design: &str, view: &str) -> (r: Result<
        ResourcePath,
        ChillError,
    >)
        ensures
            match r {
                Ok(path) => path@ == (ResourcePathView {
                    kind: ResourceKind::DesignView,
                    segments: seq![database@, design@, view@],
                }) && is_path(path@),
                Err(e) => e@ matches ErrorView::PathParse(fault) && check_segments(
                    seq![database@, design@, view@],
                ) == Some(fault),
            },
    {
        let mut segments: Vec<String> = Vec::new();
        segments.push(String::from_str(database));
        segments.push(String::from_str(design));
        segments.push(String::from_str(view));
        assert(texts(segments@) =~= seq![database@, design@, view@]);
        ResourcePath::from_segments(ResourceKind::DesignView, segments)
    }

    /// Reads a path of kind `kind` from its text.
    pub fn parse(kind: ResourceKind, text: &str) -> (r: Result<ResourcePath, ChillError>)
        ensures
            match r {
                Ok(path) => parse_path(kind, text@) matches Ok(read) && read == path@,
                Err(e) => e@ matches ErrorView::PathParse(fault) && parse_path(kind, text@)
                    matches Err(broken) && broken == fault,
            },
    {
        let length = char_count(text);
        if length == 0 || text.get_char(0) != '/' {
            return Err(ChillError::PathParse(PathParseErrorKind::NoLeadingSlash));
        }
        if text.get_char(length - 1) == '/' {
            return Err(ChillError::PathParse(PathParseErrorKind::TrailingSlash));
        }
        let segments = split_at_slashes(text.substring_char(1, length));
        ResourcePath::from_segments(kind, segments)
    }

    /// The kind of resource that the path names.
    pub fn kind(&self) -> (r: ResourceKind)
        ensures
            r == self@.kind,
    {
        self.kind
    }

    /// The segments of the path, in order.
    pub fn segments(&self) -> (r: &Vec<String>)
        ensures
            texts(r@) == self@.segments,
            is_path(self@),
    {
        proof {
            use_type_invariant(self);
        }
        &self.segments
    }

    /// The text of the path: a slash before each segment. `parse` reads the
    /// text back as this path.
    pub fn render(&self) -> (r: String)
        ensures
            r@ == render_path(self@),
            parse_path(self@.kind, r@) matches Ok(read) && read == self@,
    {
        proof {
            use_type_invariant(self);
            law_parse_render(self@);
        }
        let ghost all = texts(self.segments@);
        let mut text = String::new();
        let mut i: usize = 0;
        assert(all.take(0) =~= Seq::<Seq<char>>::empty());
        while i < self.segments.len()
            invariant
                i <= self.segments.len(),
                all == texts(self.segments@),
                text@ == render_segments(all.take(i as int)),
            decreases self.segments.len() - i,
        {
            proof {
                let next = all.take(i + 1);
                assert(next.drop_last() =~= all.take(i as int));
                assert(next.last() == self.segments@[i as int]@);
                reveal_strlit("/");
                assert("/"@ =~= seq!['/']);
            }
            text.append("/");
            text.append(self.segments[i].as_str());
            i += 1;
        }
        assert(all.take(i as int) =~= all);
        text
    }

    /// Tells whether this path and `other` are the same path.
    pub fn is_same(&self, other: &ResourcePath) -> (r: bool)
        ensures
            r == (self@ == other@),
    {
        if self.kind != other.kind || self.segments.len() != other.segments.len() {
            assert(texts(self.segments@).len() == self.segments.len());
            assert(texts(other.segments@).len() == other.segments.len());
            return false;
        }
        let mut i: usize = 0;
        while i < self.segments.len()
            invariant
                i <= self.segments.len(),
                self.segments.len() == other.segments.len(),
                forall|j: int| 0 <= j < i ==> self.segments@[j]@ == other.segments@[j]@,
            decreases self.segments.len() - i,
        {
            if !same_text(self.segments[i].as_str(), other.segments[i].as_str()) {
                assert(texts(self.segments@)[i as int] != texts(other.segments@)[i as int]);
                return false;
            }
            i += 1;
        }
        assert(texts(self.segments@) =~= texts(other.segments@));
        true
    }
}

/// Once a bad segment was found, the segments after it change nothing.
proof fn lemma_check_segments_stays(segments: Seq<Seq<char>>, n: int)
    requires
        0 <= n <= segments.len(),
        check_segments(segments.take(n)) is Some,
    ensures
        check_segments(segments) == check_segments(segments.take(n)),
    decreases segments.len() - n,
{
    if n < segments.len() {
        let next = segments.take(n + 1);
        assert(next.drop_last() =~= segments.take(n));
        lemma_check_segments_stays(segments, n + 1);
    } else {
        assert(segments.take(n) =~= segments);
    }
}

impl Clone for ResourcePath {
    fn clone(&self) -> (r: Self)
        ensures
            r@ == self@,
    {
        proof {
            use_type_invariant(self);
        }
        let mut segments: Vec<String> = Vec::new();
        let mut i: usize = 0;
        while i < self.segments.len()
            invariant
                i <= self.segments.len(),
                segments.len() == i,
                forall|j: int| 0 <= j < i ==> segments@[j]@ == self.segments@[j]@,
            decreases self.segments.len() - i,
        {
            segments.push(self.segments[i].clone());
            i += 1;
        }
        assert(texts(segments@) =~= texts(self.segments@));
        ResourcePath { kind: self.kind, segments }
    }
}

impl PartialEq for ResourcePath {
    fn eq(&self, other: &Self) -> (r: bool) {
        self.is_same(other)
    }
}

impl vstd::std_specs::cmp::PartialEqSpecImpl for ResourcePath {
    open spec fn obeys_eq_spec() -> bool {
        true
    }

    open spec fn eq_spec(&self, other: &Self) -> bool {
        self@ == other@
    }
}

} // verus!
