//! Selection of rules by id, and the error for ids that name no rule.

use crate::idset::IdSet;
use crate::text::{
    distinct,
    join,
    join_with,
    lowercase_of,
    push_str_chars,
    string_of,
    trim,
    trimmed,
    views,
};
use vstd::prelude::*;

verus! {

/// The form in which identifiers are compared: without surrounding white
/// space, and in lower case.
pub open spec fn normalized(s: Seq<char>) -> Seq<char> {
    lowercase_of(trimmed(s))
}

/// The normalized forms of the texts of `items`, as a set.
pub open spec fn normalized_set(items: Seq<Seq<char>>) -> Set<Seq<char>> {
    Set::new(|t: Seq<char>| exists|i: int| 0 <= i < items.len() && normalized(#[trigger] items[i]) == t)
}

/// The normalized forms of the texts of `items`, in order.
pub open spec fn normalized_all(items: Seq<Seq<char>>) -> Seq<Seq<char>> {
    Seq::new(items.len(), |i: int| normalized(items[i]))
}

/// The normalized form of `s`.
pub fn normalize(s: &str) -> (r: String)
    ensures
        r@ == normalized(s@),
{
    trim(s).as_str().to_lowercase()
}

/// Adding a text to a list adds its normalized form to the list's set.
pub proof fn lemma_normalized_set_push(items: Seq<Seq<char>>, item: Seq<char>)
    ensures
        normalized_set(items.push(item)) == normalized_set(items).insert(normalized(item)),
{
    let after = items.push(item);
    assert forall|t: Seq<char>|
        normalized_set(after).contains(t) <==> normalized_set(items).insert(
            normalized(item),
        ).contains(t) by {
        if normalized_set(after).contains(t) {
            let j = choose|j: int| 0 <= j < after.len() && normalized(#[trigger] after[j]) == t;
            if j < items.len() {
                assert(items[j] == after[j]);
            }
        }
        if normalized_set(items).contains(t) {
            let j = choose|j: int| 0 <= j < items.len() && normalized(#[trigger] items[j]) == t;
            assert(after[j] == items[j]);
        }
        if t == normalized(item) {
            assert(after[items.len() as int] == item);
        }
    }
    assert(normalized_set(after) =~= normalized_set(items).insert(normalized(item)));
}

/// The set of the normalized forms of the texts of `names`. Its order is that
/// of their first occurrences.
pub fn normalized_ids(names: &Vec<String>) -> (set: IdSet)
    ensures
        set@ == normalized_set(views(names@)),
        set.in_order() == distinct(normalized_all(views(names@))),
{
    let mut set = IdSet::new();
    let mut i: usize = 0;
    let ghost all = normalized_all(views(names@));
    proof {
        assert(set@ =~= normalized_set(views(names@).take(0)));
        assert(all.take(0) =~= Seq::<Seq<char>>::empty());
    }
    while i < names.len()
        invariant
            i <= names.len(),
            all == normalized_all(views(names@)),
            set@ == normalized_set(views(names@).take(i as int)),
            set.in_order() == distinct(all.take(i as int)),
        decreases names.len() - i,
    {
        proof {
            set.lemma_view_of_order();
            assert(all.take(i + 1).drop_last() =~= all.take(i as int));
            assert(all.take(i + 1).last() == normalized(names@[i as int]@));
        }
        set.insert(normalize(names[i].as_str()));
        proof {
            lemma_normalized_set_push(views(names@).take(i as int), names@[i as int]@);
            assert(views(names@).take(i as int).push(names@[i as int]@) =~= views(names@).take(
                i + 1,
            ));
        }
        i += 1;
    }
    proof {
        assert(views(names@).take(names@.len() as int) =~= views(names@));
        assert(all.take(names@.len() as int) =~= all);
    }
    set
}

/// The set of the normalized forms of the texts of `input`; `None` where there
/// is no input.
pub fn parse_vec_to_set(input: &Option<Vec<String>>) -> (r: Option<IdSet>)
    ensures
        match input {
            Some(items) => r is Some && r->Some_0@ == normalized_set(views(items@))
                && r->Some_0.in_order() == distinct(normalized_all(views(items@))),
            None => r is None,
        },
{
    match input {
        Some(items) => Some(normalized_ids(items)),
        None => None,
    }
}

/// The set of rule ids that a caller names.
pub fn parse_id_set(input: &Option<Vec<String>>) -> (r: Option<IdSet>)
    ensures
        match input {
            Some(items) => r is Some && r->Some_0@ == normalized_set(views(items@))
                && r->Some_0.in_order() == distinct(normalized_all(views(items@))),
            None => r is None,
        },
{
    parse_vec_to_set(input)
}

/// The set of container states that a caller names.
pub fn parse_state_set(input: &Option<Vec<String>>) -> (r: Option<IdSet>)
    ensures
        match input {
            Some(items) => r is Some && r->Some_0@ == normalized_set(views(items@))
                && r->Some_0.in_order() == distinct(normalized_all(views(items@))),
            None => r is None,
        },
{
    parse_vec_to_set(input)
}

/// The patterns for container names and ids that a caller names, each
/// normalized, in the order given.
pub fn parse_container_patterns(input: &Option<Vec<String>>) -> (r: Option<Vec<String>>)
    ensures
        match input {
            Some(items) => r is Some && views(r->Some_0@) == normalized_all(views(items@)),
            None => r is None,
        },
{
    match input {
        Some(items) => {
            let mut out: Vec<String> = Vec::new();
            let mut i: usize = 0;
            while i < items.len()
                invariant
                    i <= items.len(),
                    out@.len() == i,
                    forall|j: int| 0 <= j < i ==> (#[trigger] out@[j])@ == normalized(items@[j]@),
                decreases items.len() - i,
            {
                out.push(normalize(items[i].as_str()));
                i += 1;
            }
            assert(views(out@) =~= normalized_all(views(items@)));
            Some(out)
        },
        None => None,
    }
}

/// What the ids of an `UnknownIds` error were meant to name.
#[derive(Debug, Clone, Copy, PartialEq, Eq, Structural)]
pub enum IdKind {
    Detector,
    Plugin,
}

/// The error for a selection that names ids which no rule has. It holds all
/// of them.
#[derive(Debug)]
pub struct UnknownIds {
    /// What the ids were meant to name.
    pub what: IdKind,
    /// The option that named the ids.
    pub flag: String,
    /// The ids that no rule has.
    pub ids: Vec<String>,
}

/// The word for what the ids of an error were meant to name, in the singular
/// for one id and in the plural otherwise.
pub open spec fn noun(what: IdKind, count: nat) -> Seq<char> {
    match what {
        IdKind::Detector => if count == 1 {
            "detector"@
        } else {
            "detectors"@
        },
        IdKind::Plugin => if count == 1 {
            "plugin"@
        } else {
            "plugins"@
        },
    }
}

/// The message of an `UnknownIds` error.
pub open spec fn unknown_ids_message(what: IdKind, flag: Seq<char>, ids: Seq<Seq<char>>) -> Seq<
    char,
> {
    "Unknown "@ + noun(what, ids.len()) + " in "@ + flag + ": "@ + join(ids, ", "@)
}

impl UnknownIds {
    /// The message for the user: what is unknown, the option that named it,
    /// and all the unknown ids.
    pub fn message(&self) -> (m: String)
        ensures
            m@ == unknown_ids_message(self.what, self.flag@, views(self.ids@)),
    {
        let mut out: Vec<char> = Vec::new();
        push_str_chars(&mut out, "Unknown ");
        match self.what {
            IdKind::Detector => {
                if self.ids.len() == 1 {
                    push_str_chars(&mut out, "detector");
                } else {
                    push_str_chars(&mut out, "detectors");
                }
            },
            IdKind::Plugin => {
                if self.ids.len() == 1 {
                    push_str_chars(&mut out, "plugin");
                } else {
                    push_str_chars(&mut out, "plugins");
                }
            },
        }
        push_str_chars(&mut out, " in ");
        push_str_chars(&mut out, self.flag.as_str());
        push_str_chars(&mut out, ": ");
        let list = join_with(&self.ids, ", ");
        push_str_chars(&mut out, list.as_str());
        assert(out@ =~= unknown_ids_message(self.what, self.flag@, views(self.ids@)));
        string_of(&out)
    }
}

/// The ids of `provided` that are not in `available`, in the order of
/// `provided`.
pub open spec fn unknown_ids(available: Set<Seq<char>>, provided: Seq<Seq<char>>) -> Seq<Seq<char>> {
    crate::seqs::kept(provided, |id: Seq<char>| !available.contains(id))
}

/// Checks that every id of `provided` is one of `available`.
///
/// Without `provided` there is nothing to check. Otherwise the check fails
/// where some id is not available, and the error lists every such id.
pub fn validate_named_ids(
    available: &IdSet,
    provided: &Option<IdSet>,
    flag: &str,
    what: IdKind,
) -> (r: Result<(), UnknownIds>)
    ensures
        match provided {
            Some(ids) => match r {
                Ok(_) => ids@.subset_of(available@),
                Err(e) => {
                    &&& !ids@.subset_of(available@)
                    &&& views(e.ids@) == unknown_ids(available@, ids.in_order())
                    &&& views(e.ids@).len() > 0
                    &&& e.flag@ == flag@
                    &&& e.what == what
                },
            },
            None => r is Ok,
        },
{
    match provided {
        Some(ids) => {
            let listed = ids.to_vec();
            let ghost keep = |id: Seq<char>| !available@.contains(id);
            let mut unknown: Vec<String> = Vec::new();
            let mut i: usize = 0;
            while i < listed.len()
                invariant
                    i <= listed.len(),
                    keep == (|id: Seq<char>| !available@.contains(id)),
                    views(unknown@) == crate::seqs::kept(views(listed@).take(i as int), keep),
                    forall|j: int| 0 <= j < i ==> (available@.contains(#[trigger] views(listed@)[j])
                        || unknown@.len() > 0),
                    unknown@.len() > 0 ==> exists|j: int|
                        0 <= j < i && !available@.contains(#[trigger] views(listed@)[j]),
                decreases listed.len() - i,
            {
                let ghost before = unknown@;
                proof {
                    assert(views(listed@).take(i + 1).drop_last() =~= views(listed@).take(i as int));
                    assert(views(listed@).take(i + 1).last() == listed@[i as int]@);
                    assert(views(listed@)[i as int] == listed@[i as int]@);
                }
                if !available.contains(listed[i].as_str()) {
                    unknown.push(listed[i].clone());
                    assert(views(unknown@) =~= views(before).push(listed@[i as int]@));
                }
                i += 1;
            }
            proof {
                assert(views(listed@).take(listed@.len() as int) =~= views(listed@));
                if unknown@.len() == 0 {
                    assert forall|t: Seq<char>| ids@.contains(t) implies available@.contains(t) by {
                        let j = choose|j: int| 0 <= j < views(listed@).len() && views(listed@)[j] == t;
                        assert(available@.contains(views(listed@)[j]));
                    }
                } else {
                    let j = choose|j: int|
                        0 <= j < listed@.len() && !available@.contains(#[trigger] views(listed@)[j]);
                    assert(views(listed@).contains(views(listed@)[j]));
                    assert(ids@.contains(views(listed@)[j]));
                }
            }
            if unknown.len() == 0 {
                Ok(())
            } else {
                Err(UnknownIds { what, flag: flag.to_owned(), ids: unknown })
            }
        },
        None => Ok(()),
    }
}

/// Checks that every rule id of `provided` is one of `available`.
pub fn validate_ids(available: &IdSet, provided: &Option<IdSet>, flag: &str) -> (r: Result<
    (),
    UnknownIds,
>)
    ensures
        match provided {
            Some(ids) => match r {
                Ok(_) => ids@.subset_of(available@),
                Err(e) => {
                    &&& !ids@.subset_of(available@)
                    &&& views(e.ids@) == unknown_ids(available@, ids.in_order())
                    &&& views(e.ids@).len() > 0
                    &&& e.flag@ == flag@
                    &&& e.what == IdKind::Detector
                },
            },
            None => r is Ok,
        },
{
    validate_named_ids(available, provided, flag, IdKind::Detector)
}

/// The texts of `provided` whose normalized form is not in `available`, in the
/// order of `provided` and as they are written there.
pub open spec fn unknown_names(available: Set<Seq<char>>, provided: Seq<Seq<char>>) -> Seq<
    Seq<char>,
> {
    crate::seqs::kept(provided, |id: Seq<char>| !available.contains(normalized(id)))
}

/// Whether the normalized form of every text of `provided` is in `available`.
pub open spec fn all_known(available: Set<Seq<char>>, provided: Seq<Seq<char>>) -> bool {
    forall|i: int| 0 <= i < provided.len() ==> available.contains(normalized(#[trigger] provided[i]))
}

/// An id as a caller wrote it, with the form in which it is compared.
#[derive(Debug)]
pub struct NamedId {
    /// The id as the caller wrote it.
    pub written: String,
    /// The normalized form of the id.
    pub form: String,
}

/// The ids of `named` whose form is not in `available`, as they are written
/// and in the order of `named`.
pub open spec fn unknown_written(available: Set<Seq<char>>, named: Seq<NamedId>) -> Seq<Seq<char>>
    decreases named.len(),
{
    if named.len() == 0 {
        Seq::empty()
    } else if available.contains(named.last().form@) {
        unknown_written(available, named.drop_last())
    } else {
        unknown_written(available, named.drop_last()).push(named.last().written@)
    }
}

/// Whether `named` holds the texts of `names`, each with its normalized form.
pub open spec fn names_them(named: Seq<NamedId>, names: Seq<Seq<char>>) -> bool {
    &&& named.len() == names.len()
    &&& forall|i: int|
        0 <= i < named.len() ==> (#[trigger] named[i]).written@ == names[i] && named[i].form@
            == normalized(names[i])
}

/// The texts of `names`, each with its normalized form.
pub fn name_ids(names: &Vec<String>) -> (named: Vec<NamedId>)
    ensures
        names_them(named@, views(names@)),
{
    let mut named: Vec<NamedId> = Vec::new();
    let mut i: usize = 0;
    while i < names.len()
        invariant
            i <= names.len(),
            named@.len() == i,
            forall|j: int|
                0 <= j < i ==> (#[trigger] named@[j]).written@ == names@[j]@ && named@[j].form@
                    == normalized(names@[j]@),
        decreases names.len() - i,
    {
        named.push(NamedId { written: names[i].clone(), form: normalize(names[i].as_str()) });
        i += 1;
    }
    named
}

/// Checks a selection of rules on ids that are given with their normalized
/// forms: the check fails where the form of some id is not in `available`, and
/// the error lists every such id as it is written.
pub fn check_named(available: &IdSet, named: &Vec<NamedId>, flag: &str) -> (r: Result<
    (),
    UnknownIds,
>)
    ensures
        match r {
            Ok(_) => unknown_written(available@, named@).len() == 0,
            Err(e) => {
                &&& views(e.ids@) == unknown_written(available@, named@)
                &&& views(e.ids@).len() > 0
                &&& e.flag@ == flag@
                &&& e.what == IdKind::Detector
            },
        },
{
    let mut unknown: Vec<String> = Vec::new();
    let mut i: usize = 0;
    proof {
        assert(named@.take(0) =~= Seq::<NamedId>::empty());
        assert(views(unknown@) =~= Seq::<Seq<char>>::empty());
    }
    while i < named.len()
        invariant
            i <= named.len(),
            views(unknown@) == unknown_written(available@, named@.take(i as int)),
        decreases named.len() - i,
    {
        proof {
            assert(named@.take(i + 1).drop_last() =~= named@.take(i as int));
            assert(named@.take(i + 1).last() == named@[i as int]);
        }
        if !available.contains(named[i].form.as_str()) {
            let written = named[i].written.clone();
            proof {
                crate::text::lemma_views_push(unknown@, written);
            }
            unknown.push(written);
        }
        i += 1;
    }
    proof {
        assert(named@.take(named@.len() as int) =~= named@);
        assert(views(unknown@).len() == unknown@.len());
    }
    if unknown.len() == 0 {
        Ok(())
    } else {
        Err(UnknownIds { what: IdKind::Detector, flag: flag.to_owned(), ids: unknown })
    }
}

/// The unknown ids of texts that are given with their normalized forms are
/// the unknown names of the texts.
pub proof fn lemma_unknown_written(
    available: Set<Seq<char>>,
    named: Seq<NamedId>,
    names: Seq<Seq<char>>,
)
    requires
        names_them(named, names),
    ensures
        unknown_written(available, named) == unknown_names(available, names),
    decreases named.len(),
{
    if named.len() > 0 {
        assert(names_them(named.drop_last(), names.drop_last())) by {
            assert forall|i: int| 0 <= i < named.drop_last().len() implies (
            #[trigger] named.drop_last()[i]).written@ == names.drop_last()[i]
                && named.drop_last()[i].form@ == normalized(names.drop_last()[i]) by {
                assert(named.drop_last()[i] == named[i]);
            }
        }
        lemma_unknown_written(available, named.drop_last(), names.drop_last());
        assert(named.last() == named[named.len() - 1]);
    }
}

/// The names are all known exactly where there is no unknown name.
pub proof fn lemma_all_known(available: Set<Seq<char>>, provided: Seq<Seq<char>>)
    ensures
        all_known(available, provided) <==> unknown_names(available, provided).len() == 0,
{
    let keep = |id: Seq<char>| !available.contains(normalized(id));
    crate::seqs::lemma_kept_elements(provided, keep);
    if unknown_names(available, provided).len() > 0 {
        let first = unknown_names(available, provided)[0];
        assert(keep(first) && provided.contains(first));
        let j = choose|j: int| 0 <= j < provided.len() && provided[j] == first;
        assert(!available.contains(normalized(provided[j])));
    } else {
        assert forall|i: int| 0 <= i < provided.len() implies available.contains(
            normalized(#[trigger] provided[i]),
        ) by {
            if !available.contains(normalized(provided[i])) {
                crate::seqs::lemma_kept_complete(provided, keep, i);
            }
        }
    }
}

/// Checks a selection of rules before a scan: every id that the caller names
/// must be the id of a rule, compared in normalized form.
///
/// Without `provided` there is nothing to check. Otherwise the check fails
/// where some id names no rule, and the error lists every such id as the
/// caller wrote it.
pub fn check_selection(available: &IdSet, provided: &Option<Vec<String>>, flag: &str) -> (r: Result<
    (),
    UnknownIds,
>)
    ensures
        match provided {
            Some(names) => match r {
                Ok(_) => all_known(available@, views(names@)),
                Err(e) => {
                    &&& !all_known(available@, views(names@))
                    &&& views(e.ids@) == unknown_names(available@, views(names@))
                    &&& views(e.ids@).len() > 0
                    &&& e.flag@ == flag@
                    &&& e.what == IdKind::Detector
                },
            },
            None => r is Ok,
        },
{
    match provided {
        Some(names) => {
            let named = name_ids(names);
            proof {
                lemma_unknown_written(available@, named@, views(names@));
                lemma_all_known(available@, views(names@));
            }
            check_named(available, &named, flag)
        },
        None => Ok(()),
    }
}

/// The identifiers of an optional set.
pub open spec fn ids_of(set: Option<IdSet>) -> Option<Set<Seq<char>>> {
    match set {
        Some(ids) => Some(ids@),
        None => None,
    }
}

/// Whether an id in lower case passes a selection in which `only` and
/// `exclude` both count: it is in `only`, where `only` is given, and not in
/// `exclude`, where `exclude` is given.
pub open spec fn lower_id_passes(
    lower_id: Seq<char>,
    only: Option<Set<Seq<char>>>,
    exclude: Option<Set<Seq<char>>>,
) -> bool {
    &&& match only {
        Some(ids) => ids.contains(lower_id),
        None => true,
    }
    &&& match exclude {
        Some(ids) => !ids.contains(lower_id),
        None => true,
    }
}

/// Whether an id in lower case passes a selection in which `only` decides
/// where it is given, and `exclude` where it is not.
pub open spec fn lower_id_selected(
    lower_id: Seq<char>,
    only: Option<Set<Seq<char>>>,
    exclude: Option<Set<Seq<char>>>,
) -> bool {
    match only {
        Some(ids) => ids.contains(lower_id),
        None => match exclude {
            Some(ids) => !ids.contains(lower_id),
            None => true,
        },
    }
}

/// Whether the id `lower_id`, given in lower case, passes a selection in
/// which `only` and `exclude` both count.
pub fn passes_selection(lower_id: &str, only: &Option<IdSet>, exclude: &Option<IdSet>) -> (b: bool)
    ensures
        b == lower_id_passes(lower_id@, ids_of(*only), ids_of(*exclude)),
{
    let passes_only = match only {
        Some(ids) => ids.contains(lower_id),
        None => true,
    };
    let passes_exclude = match exclude {
        Some(ids) => !ids.contains(lower_id),
        None => true,
    };
    passes_only && passes_exclude
}

/// Whether the id `lower_id`, given in lower case, passes a selection in
/// which `only` decides where it is given, and `exclude` where it is not.
pub fn is_selected_id(lower_id: &str, only: &Option<IdSet>, exclude: &Option<IdSet>) -> (b: bool)
    ensures
        b == lower_id_selected(lower_id@, ids_of(*only), ids_of(*exclude)),
{
    match only {
        Some(ids) => ids.contains(lower_id),
        None => match exclude {
            Some(ids) => !ids.contains(lower_id),
            None => true,
        },
    }
}

/// Where `only` names a text whose normalized form is the id of no rule, the
/// names are not all known, and the text is among the unknown names.
pub proof fn lemma_unknown_name(available: Set<Seq<char>>, provided: Seq<Seq<char>>, i: int)
    requires
        0 <= i < provided.len(),
        !available.contains(normalized(provided[i])),
    ensures
        !all_known(available, provided),
        unknown_names(available, provided).contains(provided[i]),
{
    crate::seqs::lemma_kept_complete(
        provided,
        |id: Seq<char>| !available.contains(normalized(id)),
        i,
    );
}

} // verus!
