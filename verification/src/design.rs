//! The content of a design document: its views, each a map function and,
//! where it has one, a reduce function.

use crate::error::{ChillError, ErrorView};
use crate::json::{
    json_members, json_text_members, members_view, missing_field_error, raw_members_view,
    read_json_members, read_json_text_members, unknown_field_error,
};
use crate::record::{option_text, read_fields, read_text_fields, FieldFault, FieldFaultView};
use crate::text::same_text;
use vstd::prelude::*;
use vstd::string::*;

verus! {

/// The name of a view of a design document.
#[derive(Debug, Eq, Hash)]
pub struct ViewName {
    inner: String,
}

impl View for ViewName {
    type V = Seq<char>;

    closed spec fn view(&self) -> Seq<char> {
        self.inner@
    }
}

impl ViewName {
    /// Makes a view name from its text.
    pub fn new(name: &str) -> (r: ViewName)
        ensures
            r@ == name@,
    {
        ViewName { inner: String::from_str(name) }
    }

    /// The text of the name.
    pub fn as_str(&self) -> (r: &str)
        ensures
            r@ == self@,
    {
        self.inner.as_str()
    }
}

impl Clone for ViewName {
    fn clone(&self) -> (r: Self)
        ensures
            r@ == self@,
    {
        ViewName { inner: self.inner.clone() }
    }
}

impl PartialEq for ViewName {
    fn eq(&self, other: &Self) -> (r: bool) {
        self.inner == other.inner
    }
}

impl vstd::std_specs::cmp::PartialEqSpecImpl for ViewName {
    open spec fn obeys_eq_spec() -> bool {
        true
    }

    open spec fn eq_spec(&self, other: &Self) -> bool {
        self@ == other@
    }
}

/// The map function of a view and, where the view has one, its reduce
/// function.
#[derive(Debug, Eq, Hash)]
pub struct ViewFunction {
    /// The map function of the view.
    pub map: String,
    /// The reduce function of the view, where it has one.
    pub reduce: Option<String>,
    // Keeps other crates from writing the struct out by its fields.
    marker: (),
}

/// What a view function holds, as plain text.
pub struct ViewFunctionView {
    /// The map function of the view.
    pub map: Seq<char>,
    /// The reduce function of the view, where it has one.
    pub reduce: Option<Seq<char>>,
}

/// The view function that the members of a JSON object stand for. The
/// object must have the member `map`, may have the member `reduce`, and may
/// have no others; where a name occurs twice the later member counts.
pub open spec fn decode_view_function(members: Seq<(Seq<char>, Seq<char>)>) -> Result<
    ViewFunctionView,
    FieldFaultView,
> {
    match read_fields(members, "map"@, "reduce"@) {
        Err(name) => Err(FieldFaultView::Unknown(name)),
        Ok((None, _)) => Err(FieldFaultView::Missing("map"@)),
        Ok((Some(map), reduce)) => Ok(ViewFunctionView { map, reduce }),
    }
}

/// The members of the JSON object that stands for a view function: `map`,
/// and after it `reduce` where the view has a reduce function.
pub open spec fn view_function_members(function: ViewFunctionView) -> Seq<(Seq<char>, Seq<char>)> {
    match function.reduce {
        None => seq![("map"@, function.map)],
        Some(reduce) => seq![("map"@, function.map), ("reduce"@, reduce)],
    }
}

/// The view function that a body stands for, where it stands for one: the
/// body is a JSON object whose members are texts, and those members are a
/// view function.
pub open spec fn view_function_of(body: Seq<u8>) -> Option<ViewFunctionView> {
    match json_text_members(body) {
        None => None,
        Some(members) => match decode_view_function(members) {
            Ok(function) => Some(function),
            Err(_) => None,
        },
    }
}

/// Reading the members of a view function gives the view function back.
pub proof fn law_view_function_members(function: ViewFunctionView)
    ensures
        decode_view_function(view_function_members(function)) matches Ok(read) && read
            == function,
{
    reveal_strlit("map");
    reveal_strlit("reduce");
    assert("map"@ != "reduce"@) by {
        assert("map"@.len() != "reduce"@.len());
    }
    let members = view_function_members(function);
    let first = seq![("map"@, function.map)];
    assert(first.drop_last() =~= Seq::empty());
    assert(read_fields(first.drop_last(), "map"@, "reduce"@) matches Ok(fields) && fields == (
        None::<Seq<char>>,
        None::<Seq<char>>,
    ));
    assert(read_fields(first, "map"@, "reduce"@) matches Ok(fields) && fields == (
        Some(function.map),
        None::<Seq<char>>,
    ));
    if function.reduce is Some {
        assert(members.drop_last() =~= first);
    }
}

impl View for ViewFunction {
    type V = ViewFunctionView;

    closed spec fn view(&self) -> ViewFunctionView {
        ViewFunctionView { map: self.map@, reduce: option_text(self.reduce) }
    }
}

impl ViewFunction {
    /// Makes a view function that has no reduce function.
    pub fn new(map: &str) -> (r: Self)
        ensures
            r@ == (ViewFunctionView { map: map@, reduce: None }),
    {
        ViewFunction { map: String::from_str(map), reduce: None, marker: () }
    }

    /// Makes a view function that has a reduce function.
    pub fn new_with_reduce(map: &str, reduce: &str) -> (r: Self)
        ensures
            r@ == (ViewFunctionView { map: map@, reduce: Some(reduce@) }),
    {
        ViewFunction {
            map: String::from_str(map),
            reduce: Some(String::from_str(reduce)),
            marker: (),
        }
    }

    /// The map function of the view.
    pub fn map_function(&self) -> (r: &str)
        ensures
            r@ == self@.map,
    {
        self.map.as_str()
    }

    /// The reduce function of the view, where it has one.
    pub fn reduce_function(&self) -> (r: Option<&str>)
        ensures
            match r {
                Some(reduce) => self@.reduce == Some(reduce@),
                None => self@.reduce is None,
            },
    {
        match &self.reduce {
            Some(reduce) => Some(reduce.as_str()),
            None => None,
        }
    }

    /// Makes a view function from the members of a JSON object. `map` must
    /// be there, `reduce` may be, and nothing else may be.
    pub fn from_members(members: &Vec<(String, String)>) -> (r: Result<Self, FieldFault>)
        ensures
            match r {
                Ok(function) => decode_view_function(members_view(members@)) matches Ok(read)
                    && read == function@,
                Err(fault) => decode_view_function(members_view(members@)) matches Err(broken)
                    && broken == fault@,
            },
    {
        match read_text_fields(members, "map", "reduce") {
            Err(name) => Err(FieldFault::Unknown(name)),
            Ok(fields) => {
                let (map, reduce) = fields;
                match map {
                    None => Err(FieldFault::Missing("map")),
                    Some(map) => Ok(ViewFunction { map, reduce, marker: () }),
                }
            },
        }
    }

    /// The members of the JSON object that stands for this view function:
    /// `map`, and after it `reduce` where there is a reduce function. Read
    /// back with `from_members`, they give this view function.
    pub fn to_members(&self) -> (r: Vec<(String, String)>)
        ensures
            members_view(r@) == view_function_members(self@),
            decode_view_function(members_view(r@)) matches Ok(read) && read == self@,
    {
        proof {
            law_view_function_members(self@);
        }
        let mut members: Vec<(String, String)> = Vec::new();
        members.push((String::from_str("map"), self.map.clone()));
        match &self.reduce {
            Some(reduce) => {
                members.push((String::from_str("reduce"), reduce.clone()));
            },
            None => {},
        }
        assert(members_view(members@) =~= view_function_members(self@));
        members
    }

    /// Decodes a body as a view function. Whatever keeps the body from
    /// being one gives a `JsonDecode` error: a body that is no JSON object
    /// of texts, a member with another name than `map` and `reduce`, or the
    /// lack of `map`.
    pub fn from_json(body: &[u8]) -> (r: Result<Self, ChillError>)
        ensures
            match r {
                Ok(function) => view_function_of(body@) == Some(function@),
                Err(e) => view_function_of(body@) is None && e@ == ErrorView::JsonDecode,
            },
    {
        match read_json_text_members(body) {
            Err(cause) => Err(ChillError::JsonDecode { cause }),
            Ok(members) => match ViewFunction::from_members(&members) {
                Ok(function) => Ok(function),
                Err(FieldFault::Unknown(name)) => Err(
                    ChillError::JsonDecode {
                        cause: unknown_field_error(name.as_str(), &["map", "reduce"]),
                    },
                ),
                Err(FieldFault::Missing(name)) => Err(
                    ChillError::JsonDecode { cause: missing_field_error(name) },
                ),
            },
        }
    }

    /// Tells whether this view function and `other` hold the same
    /// functions.
    pub fn is_same(&self, other: &ViewFunction) -> (r: bool)
        ensures
            r == (self@ == other@),
    {
        let same_map = self.map == other.map;
        let same_reduce = match &self.reduce {
            Some(mine) => match &other.reduce {
                Some(theirs) => same_text(mine.as_str(), theirs.as_str()),
                None => false,
            },
            None => other.reduce.is_none(),
        };
        same_map && same_reduce
    }
}

impl Clone for ViewFunction {
    fn clone(&self) -> (r: Self)
        ensures
            r@ == self@,
    {
        ViewFunction {
            map: self.map.clone(),
            reduce: match &self.reduce {
                Some(reduce) => Some(reduce.clone()),
                None => None,
            },
            marker: (),
        }
    }
}

impl PartialEq for ViewFunction {
    fn eq(&self, other: &Self) -> (r: bool) {
        self.is_same(other)
    }
}

impl vstd::std_specs::cmp::PartialEqSpecImpl for ViewFunction {
    open spec fn obeys_eq_spec() -> bool {
        true
    }

    open spec fn eq_spec(&self, other: &Self) -> bool {
        self@ == other@
    }
}

/// The names and functions that a list of views holds.
pub open spec fn entry_views(entries: Seq<(ViewName, ViewFunction)>) -> Seq<
    (Seq<char>, ViewFunctionView),
> {
    Seq::new(entries.len(), |i: int| (entries[i].0@, entries[i].1@))
}

/// The views that a list of names and functions stands for: each name with
/// its function, and where a name occurs twice, with the later one.
pub open spec fn views_of(entries: Seq<(Seq<char>, ViewFunctionView)>) -> Map<
    Seq<char>,
    ViewFunctionView,
>
    decreases entries.len(),
{
    if entries.len() == 0 {
        Map::empty()
    } else {
        views_of(entries.drop_last()).insert(entries.last().0, entries.last().1)
    }
}

/// No name occurs twice in `entries`.
pub open spec fn distinct_names(entries: Seq<(Seq<char>, ViewFunctionView)>) -> bool {
    forall|i: int, j: int|
        0 <= i < j < entries.len() ==> (#[trigger] entries[i]).0 != (#[trigger] entries[j]).0
}

/// The views of a list hold a name exactly if the list does, and where no
/// name occurs twice, each name has the function that stands beside it, and
/// there are as many views as entries.
pub proof fn lemma_views_of(entries: Seq<(Seq<char>, ViewFunctionView)>)
    ensures
        forall|name: Seq<char>| #[trigger]
            views_of(entries).contains_key(name) <==> exists|i: int|
                0 <= i < entries.len() && (#[trigger] entries[i]).0 == name,
        distinct_names(entries) ==> forall|i: int|
            0 <= i < entries.len() ==> views_of(entries)[(#[trigger] entries[i]).0]
                == entries[i].1,
        views_of(entries).dom().finite(),
        distinct_names(entries) ==> views_of(entries).dom().len() == entries.len(),
    decreases entries.len(),
{
    if entries.len() > 0 {
        let head = entries.drop_last();
        let last = entries.last();
        lemma_views_of(head);
        assert(forall|i: int| 0 <= i < head.len() ==> head[i] == entries[i]);
        assert forall|name: Seq<char>| #[trigger]
            views_of(entries).contains_key(name) <==> exists|i: int|
                0 <= i < entries.len() && (#[trigger] entries[i]).0 == name by {
            if views_of(entries).contains_key(name) {
                if name == last.0 {
                    assert(entries[entries.len() - 1].0 == name);
                } else {
                    assert(views_of(head).contains_key(name));
                    let at = choose|i: int| 0 <= i < head.len() && (#[trigger] head[i]).0 == name;
                    assert(entries[at].0 == name);
                }
            }
            if exists|i: int| 0 <= i < entries.len() && (#[trigger] entries[i]).0 == name {
                let at = choose|i: int|
                    0 <= i < entries.len() && (#[trigger] entries[i]).0 == name;
                if at < head.len() {
                    assert(head[at].0 == name);
                    assert(views_of(head).contains_key(name));
                }
            }
        }
        if distinct_names(entries) {
            assert(distinct_names(head)) by {
                assert forall|i: int, j: int| 0 <= i < j < head.len() implies (
                #[trigger] head[i]).0 != (#[trigger] head[j]).0 by {
                    assert(entries[i].0 != entries[j].0);
                }
            }
            assert(!views_of(head).contains_key(last.0)) by {
                if views_of(head).contains_key(last.0) {
                    let at = choose|i: int|
                        0 <= i < head.len() && (#[trigger] head[i]).0 == last.0;
                    assert(entries[at].0 != entries[entries.len() - 1].0);
                }
            }
            assert forall|i: int| 0 <= i < entries.len() implies views_of(entries)[(
            #[trigger] entries[i]).0] == entries[i].1 by {
                if i < head.len() {
                    assert(head[i] == entries[i]);
                    assert(entries[i].0 != entries[entries.len() - 1].0);
                }
            }
        }
    }
}

/// The value of the member `views` among the members of a JSON object,
/// where there is such a member, or the name of the first member that has
/// another name. Where `views` occurs twice the later member counts.
pub open spec fn views_member(members: Seq<(Seq<char>, Seq<u8>)>) -> Result<
    Option<Seq<u8>>,
    Seq<char>,
>
    decreases members.len(),
{
    if members.len() == 0 {
        Ok(None)
    } else {
        match views_member(members.drop_last()) {
            Err(name) => Err(name),
            Ok(_) => if members.last().0 == "views"@ {
                Ok(Some(members.last().1))
            } else {
                Err(members.last().0)
            },
        }
    }
}

/// The views that the members of a JSON object stand for: each member is
/// the name of a view with the JSON text of its view function. Nothing
/// where one of them is no view function.
pub open spec fn decode_views(entries: Seq<(Seq<char>, Seq<u8>)>) -> Option<
    Map<Seq<char>, ViewFunctionView>,
>
    decreases entries.len(),
{
    if entries.len() == 0 {
        Some(Map::empty())
    } else {
        match decode_views(entries.drop_last()) {
            None => None,
            Some(views) => match view_function_of(entries.last().1) {
                None => None,
                Some(function) => Some(views.insert(entries.last().0, function)),
            },
        }
    }
}

/// The content of a design document that a body stands for, where it stands
/// for one: the body is a JSON object with no other member than `views`,
/// and `views`, where it is there, is a JSON object of view functions.
/// Without `views` the content has no views.
pub open spec fn design_of(body: Seq<u8>) -> Option<Map<Seq<char>, ViewFunctionView>> {
    match json_members(body) {
        None => None,
        Some(members) => match views_member(members) {
            Err(_) => None,
            Ok(None) => Some(Map::empty()),
            Ok(Some(views)) => match json_members(views) {
                None => None,
                Some(entries) => decode_views(entries),
            },
        },
    }
}

/// Once a member with another name than `views` was read, the members
/// after it change nothing.
proof fn lemma_views_member_stays(members: Seq<(Seq<char>, Seq<u8>)>, n: int)
    requires
        0 <= n <= members.len(),
        views_member(members.take(n)) is Err,
    ensures
        views_member(members) is Err,
    decreases members.len() - n,
{
    if n < members.len() {
        let next = members.take(n + 1);
        assert(next.drop_last() =~= members.take(n));
        lemma_views_member_stays(members, n + 1);
    } else {
        assert(members.take(n) =~= members);
    }
}

/// Once a view was read that is no view function, the views after it
/// change nothing.
proof fn lemma_decode_views_stays(entries: Seq<(Seq<char>, Seq<u8>)>, n: int)
    requires
        0 <= n <= entries.len(),
        decode_views(entries.take(n)) is None,
    ensures
        decode_views(entries) is None,
    decreases entries.len() - n,
{
    if n < entries.len() {
        let next = entries.take(n + 1);
        assert(next.drop_last() =~= entries.take(n));
        lemma_decode_views_stays(entries, n + 1);
    } else {
        assert(entries.take(n) =~= entries);
    }
}

/// The content of a design document: its views by name.
#[derive(Debug, Eq)]
pub struct Design {
    views: Vec<(ViewName, ViewFunction)>,
}

impl View for Design {
    type V = Map<Seq<char>, ViewFunctionView>;

    closed spec fn view(&self) -> Map<Seq<char>, ViewFunctionView> {
        views_of(entry_views(self.views@))
    }
}

impl Design {
    #[verifier::type_invariant]
    spec fn well_formed(self) -> bool {
        distinct_names(entry_views(self.views@))
    }

    /// The place of the view `name` among the views, where there is such a
    /// view.
    fn position(&self, name: &str) -> (r: Option<usize>)
        ensures
            match r {
                Some(at) => at < self.views.len() && self.views@[at as int].0@ == name@,
                None => forall|i: int| 0 <= i < self.views.len() ==> self.views@[i].0@ != name@,
            },
    {
        let mut i: usize = 0;
        while i < self.views.len()
            invariant
                i <= self.views.len(),
                forall|j: int| 0 <= j < i ==> self.views@[j].0@ != name@,
            decreases self.views.len() - i,
        {
            if same_text(self.views[i].0.as_str(), name) {
                return Some(i);
            }
            i += 1;
        }
        None
    }

    /// Finds the member `views` among the members of a JSON object: its
    /// place, or nothing where there is no such member. A member of another
    /// name is an error.
    fn find_views(members: &Vec<(String, Vec<u8>)>) -> (r: Result<Option<usize>, ChillError>)
        ensures
            match r {
                Ok(Some(at)) => {
                    &&& at < members.len()
                    &&& views_member(raw_members_view(members@)) matches Ok(Some(views))
                    &&& views == members@[at as int].1@
                },
                Ok(None) => views_member(raw_members_view(members@)) matches Ok(None),
                Err(e) => views_member(raw_members_view(members@)) is Err && e@
                    == ErrorView::JsonDecode,
            },
    {
        let ghost all = raw_members_view(members@);
        let mut found: Option<usize> = None;
        let mut i: usize = 0;
        assert(all.take(0).len() == 0);
        while i < members.len()
            invariant
                i <= members.len(),
                all == raw_members_view(members@),
                match found {
                    Some(at) => {
                        &&& at < i
                        &&& views_member(all.take(i as int)) matches Ok(Some(views))
                        &&& views == members@[at as int].1@
                    },
                    None => views_member(all.take(i as int)) matches Ok(None),
                },
            decreases members.len() - i,
        {
            proof {
                let next = all.take(i + 1);
                assert(next.drop_last() =~= all.take(i as int));
                assert(next.last() == (members@[i as int].0@, members@[i as int].1@));
            }
            if same_text(members[i].0.as_str(), "views") {
                found = Some(i);
            } else {
                proof {
                    lemma_views_member_stays(all, i + 1);
                }
                return Err(
                    ChillError::JsonDecode {
                        cause: unknown_field_error(members[i].0.as_str(), &["views"]),
                    },
                );
            }
            i += 1;
        }
        assert(all.take(i as int) =~= all);
        Ok(found)
    }

    /// Decodes the views of a design document from the members of the JSON
    /// object `views`.
    fn from_entries(entries: &Vec<(String, Vec<u8>)>) -> (r: Result<Design, ChillError>)
        ensures
            match r {
                Ok(design) => decode_views(raw_members_view(entries@)) == Some(design@),
                Err(e) => decode_views(raw_members_view(entries@)) is None && e@
                    == ErrorView::JsonDecode,
            },
    {
        let ghost all = raw_members_view(entries@);
        let mut builder = DesignBuilder::new();
        let mut i: usize = 0;
        assert(all.take(0).len() == 0);
        while i < entries.len()
            invariant
                i <= entries.len(),
                all == raw_members_view(entries@),
                decode_views(all.take(i as int)) == Some(builder@),
            decreases entries.len() - i,
        {
            proof {
                let next = all.take(i + 1);
                assert(next.drop_last() =~= all.take(i as int));
                assert(next.last() == (entries@[i as int].0@, entries@[i as int].1@));
            }
            match ViewFunction::from_json(entries[i].1.as_slice()) {
                Err(e) => {
                    proof {
                        lemma_decode_views_stays(all, i + 1);
                    }
                    return Err(e);
                },
                Ok(function) => {
                    builder = builder.insert_view(entries[i].0.as_str(), function);
                },
            }
            i += 1;
        }
        assert(all.take(i as int) =~= all);
        Ok(builder.unwrap())
    }

    /// Decodes a body as the content of a design document. Whatever keeps
    /// the body from being one gives a `JsonDecode` error: a body that is no
    /// JSON object, a member with another name than `views`, views that are
    /// no JSON object, or a view that is no view function. A body without
    /// `views` is a design document without views.
    pub fn from_json(body: &[u8]) -> (r: Result<Design, ChillError>)
        ensures
            match r {
                Ok(design) => design_of(body@) == Some(design@),
                Err(e) => design_of(body@) is None && e@ == ErrorView::JsonDecode,
            },
    {
        let members = match read_json_members(body) {
            Err(cause) => {
                return Err(ChillError::JsonDecode { cause });
            },
            Ok(members) => members,
        };
        match Design::find_views(&members)? {
            None => Ok(DesignBuilder::new().unwrap()),
            Some(at) => match read_json_members(members[at].1.as_slice()) {
                Err(cause) => Err(ChillError::JsonDecode { cause }),
                Ok(entries) => Design::from_entries(&entries),
            },
        }
    }

    /// The number of views.
    pub fn len(&self) -> (r: usize)
        ensures
            self@.dom().finite(),
            r == self@.dom().len(),
    {
        proof {
            use_type_invariant(self);
            lemma_views_of(entry_views(self.views@));
        }
        self.views.len()
    }

    /// The function of the view `name`, where there is such a view.
    pub fn get(&self, name: &str) -> (r: Option<&ViewFunction>)
        ensures
            match r {
                Some(function) => self@.contains_key(name@) && self@[name@] == function@,
                None => !self@.contains_key(name@),
            },
    {
        proof {
            use_type_invariant(self);
            lemma_views_of(entry_views(self.views@));
        }
        let ghost entries = entry_views(self.views@);
        match self.position(name) {
            Some(at) => {
                assert(entries[at as int].0 == name@);
                Some(&self.views[at].1)
            },
            None => {
                assert forall|i: int| 0 <= i < entries.len() implies (#[trigger] entries[i]).0
                    != name@ by {
                    assert(self.views@[i].0@ != name@);
                }
                None
            },
        }
    }

    /// The names of the views, in no order that is promised.
    pub fn names(&self) -> (r: Vec<String>)
        ensures
            r.len() == self@.dom().len(),
            forall|i: int| 0 <= i < r.len() ==> self@.contains_key(#[trigger] r@[i]@),
            forall|name: Seq<char>|
                self@.contains_key(name) ==> exists|i: int| 0 <= i < r.len() && #[trigger] r@[i]@
                    == name,
    {
        proof {
            use_type_invariant(self);
            lemma_views_of(entry_views(self.views@));
        }
        let ghost entries = entry_views(self.views@);
        let mut names: Vec<String> = Vec::new();
        let mut i: usize = 0;
        while i < self.views.len()
            invariant
                i <= self.views.len(),
                names.len() == i,
                forall|j: int| 0 <= j < i ==> names@[j]@ == self.views@[j].0@,
            decreases self.views.len() - i,
        {
            names.push(String::from_str(self.views[i].0.as_str()));
            i += 1;
        }
        proof {
            assert forall|i: int| 0 <= i < names.len() implies self@.contains_key(
                #[trigger] names@[i]@,
            ) by {
                assert(entries[i].0 == names@[i]@);
            }
            assert forall|name: Seq<char>| self@.contains_key(name) implies exists|i: int|
                0 <= i < names.len() && #[trigger] names@[i]@ == name by {
                let at = choose|i: int| 0 <= i < entries.len() && (#[trigger] entries[i]).0 == name;
                assert(names@[at]@ == name);
            }
        }
        names
    }

    /// Tells whether this content and `other` hold the same views.
    pub fn is_same(&self, other: &Design) -> (r: bool)
        ensures
            r == (self@ == other@),
    {
        proof {
            use_type_invariant(self);
            use_type_invariant(other);
            lemma_views_of(entry_views(self.views@));
            lemma_views_of(entry_views(other.views@));
        }
        let ghost mine = entry_views(self.views@);
        if self.views.len() != other.views.len() {
            return false;
        }
        let mut i: usize = 0;
        while i < self.views.len()
            invariant
                i <= self.views.len(),
                mine == entry_views(self.views@),
                forall|j: int|
                    0 <= j < i ==> other@.contains_key((#[trigger] mine[j]).0) && other@[mine[j].0]
                        == mine[j].1,
            decreases self.views.len() - i,
        {
            let entry = &self.views[i];
            proof {
                use_type_invariant(self);
                lemma_views_of(mine);
                assert(mine[i as int] == (entry.0@, entry.1@));
                assert(self@[mine[i as int].0] == mine[i as int].1);
            }
            match other.get(entry.0.as_str()) {
                None => {
                    assert(self@.contains_key(mine[i as int].0));
                    return false;
                },
                Some(function) => {
                    if !entry.1.is_same(function) {
                        return false;
                    }
                },
            }
            i += 1;
        }
        proof {
            use_type_invariant(self);
            lemma_views_of(mine);
            assert(self@.dom().subset_of(other@.dom())) by {
                assert forall|name: Seq<char>| self@.dom().contains(name) implies other@.dom()
                    .contains(name) by {
                    let at = choose|i: int| 0 <= i < mine.len() && (#[trigger] mine[i]).0 == name;
                    assert(other@.contains_key(mine[at].0));
                }
            }
            vstd::set_lib::lemma_subset_equality(self@.dom(), other@.dom());
            assert(self@ =~= other@) by {
                assert forall|name: Seq<char>| self@.dom().contains(name) implies self@[name]
                    == other@[name] by {
                    let at = choose|i: int| 0 <= i < mine.len() && (#[trigger] mine[i]).0 == name;
                    assert(other@[mine[at].0] == mine[at].1);
                    assert(self@[mine[at].0] == mine[at].1);
                }
            }
        }
        true
    }
}

impl Clone for Design {
    fn clone(&self) -> (r: Self)
        ensures
            r@ == self@,
    {
        proof {
            use_type_invariant(self);
        }
        let mut views: Vec<(ViewName, ViewFunction)> = Vec::new();
        let mut i: usize = 0;
        while i < self.views.len()
            invariant
                i <= self.views.len(),
                views.len() == i,
                forall|j: int|
                    0 <= j < i ==> views@[j].0@ == self.views@[j].0@ && views@[j].1@
                        == self.views@[j].1@,
            decreases self.views.len() - i,
        {
            views.push((self.views[i].0.clone(), self.views[i].1.clone()));
            i += 1;
        }
        assert(entry_views(views@) =~= entry_views(self.views@));
        Design { views }
    }
}

impl PartialEq for Design {
    fn eq(&self, other: &Self) -> (r: bool) {
        self.is_same(other)
    }
}

impl vstd::std_specs::cmp::PartialEqSpecImpl for Design {
    open spec fn obeys_eq_spec() -> bool {
        true
    }

    open spec fn eq_spec(&self, other: &Self) -> bool {
        self@ == other@
    }
}

/// Views of different names can be added in either order: the content is
/// the same.
pub proof fn law_insert_order(
    views: Map<Seq<char>, ViewFunctionView>,
    first: Seq<char>,
    first_function: ViewFunctionView,
    second: Seq<char>,
    second_function: ViewFunctionView,
)
    requires
        first != second,
    ensures
        views.insert(first, first_function).insert(second, second_function) == views.insert(
            second,
            second_function,
        ).insert(first, first_function),
{
    assert(views.insert(first, first_function).insert(second, second_function) =~= views.insert(
        second,
        second_function,
    ).insert(first, first_function));
}

/// Builds the content of a design document, one view at a time.
#[derive(Debug)]
pub struct DesignBuilder {
    inner: Design,
}

impl View for DesignBuilder {
    type V = Map<Seq<char>, ViewFunctionView>;

    closed spec fn view(&self) -> Map<Seq<char>, ViewFunctionView> {
        self.inner@
    }
}

impl DesignBuilder {
    /// Makes a builder that holds no view.
    pub fn new() -> (r: Self)
        ensures
            r@ == Map::<Seq<char>, ViewFunctionView>::empty(),
    {
        let views: Vec<(ViewName, ViewFunction)> = Vec::new();
        assert(entry_views(views@) =~= Seq::empty());
        DesignBuilder { inner: Design { views } }
    }

    /// The content that was built.
    pub fn unwrap(self) -> (r: Design)
        ensures
            r@ == self@,
    {
        self.inner
    }

    /// Adds the view `view_name` with the function `view_function`. A view
    /// of that name that is there already is replaced.
    pub fn insert_view(self, view_name: &str, view_function: ViewFunction) -> (r: Self)
        ensures
            r@ == self@.insert(view_name@, view_function@),
    {
        let mut design = self.inner;
        proof {
            use_type_invariant(&design);
            lemma_views_of(entry_views(design.views@));
        }
        let ghost before = entry_views(design.views@);
        let found = design.position(view_name);
        let mut views = design.views;
        match found {
            Some(at) => {
                views.set(at, (ViewName::new(view_name), view_function));
                let ghost after = entry_views(views@);
                proof {
                    assert(after =~= before.update(at as int, (view_name@, view_function@)));
                    assert(distinct_names(after)) by {
                        assert forall|i: int, j: int| 0 <= i < j < after.len() implies (
                        #[trigger] after[i]).0 != (#[trigger] after[j]).0 by {
                            assert(before[i].0 != before[j].0);
                        }
                    }
                    lemma_views_of(after);
                    assert(views_of(after) =~= views_of(before).insert(
                        view_name@,
                        view_function@,
                    )) by {
                        assert forall|name: Seq<char>|
                            views_of(after).contains_key(name) <==> views_of(before).insert(
                                view_name@,
                                view_function@,
                            ).contains_key(name) by {
                            if views_of(after).contains_key(name) {
                                let i = choose|i: int|
                                    0 <= i < after.len() && (#[trigger] after[i]).0 == name;
                                assert(before[i].0 == name);
                            }
                            if views_of(before).contains_key(name) {
                                let i = choose|i: int|
                                    0 <= i < before.len() && (#[trigger] before[i]).0 == name;
                                assert(after[i].0 == name);
                            }
                            if name == view_name@ {
                                assert(after[at as int].0 == name);
                            }
                        }
                        assert forall|name: Seq<char>|
                            views_of(after).contains_key(name) implies views_of(after)[name]
                            == views_of(before).insert(view_name@, view_function@)[name] by {
                            let i = choose|i: int|
                                0 <= i < after.len() && (#[trigger] after[i]).0 == name;
                            assert(views_of(after)[after[i].0] == after[i].1);
                            if i != at {
                                assert(before[i].0 != before[at as int].0);
                                assert(views_of(before)[before[i].0] == before[i].1);
                            }
                        }
                    }
                }
            },
            None => {
                views.push((ViewName::new(view_name), view_function));
                let ghost after = entry_views(views@);
                proof {
                    assert(after.drop_last() =~= before);
                    assert(after.last() == (view_name@, view_function@));
                    assert(distinct_names(after)) by {
                        assert forall|i: int, j: int| 0 <= i < j < after.len() implies (
                        #[trigger] after[i]).0 != (#[trigger] after[j]).0 by {
                            if j < before.len() {
                                assert(before[i].0 != before[j].0);
                            } else {
                                assert(before[i].0 != view_name@);
                            }
                        }
                    }
                }
            },
        }
        DesignBuilder { inner: Design { views } }
    }
}

} // verus!
