use vstd::prelude::*;
use crate::xmlhelper::{attribute_value, Event};
use crate::repository11::{
    add_component, archive_from, archives_from, component_from, empty_archive,
    empty_component, empty_repository, has_license, host_bits_leaf, host_os_leaf, is_revision_part,
    kind_named, leaf_from, leaf_text, license_ids_unique, license_insert, license_text_of, moved_on,
    repository_from, revision_from, sdk_repository_of, skip_from, truncated, u32_leaf,
    with_revision_part, zero_revision, ArchiveModel, ComponentKind, ComponentModel,
    ParseErrorModel, RepositoryModel, Revision,
};

verus! {

/// Recording a license text under an id makes it that id's text, leaves every other
/// id's text as it was, and keeps ids unique: the last text under an id wins.
pub proof fn lemma_license_last_wins(s: Seq<(Seq<char>, Seq<char>)>, id: Seq<char>, text: Seq<char>)
    requires
        license_ids_unique(s),
    ensures
        license_ids_unique(license_insert(s, id, text)),
        license_text_of(license_insert(s, id, text), id) == Some(text),
        forall|k: Seq<char>|
            k != id ==> license_text_of(license_insert(s, id, text), k) == license_text_of(s, k),
{
    let r = license_insert(s, id, text);
    if has_license(s, id) {
        assert(r.len() == s.len());
        assert forall|i: int| 0 <= i < s.len() implies #[trigger] r[i].0 == s[i].0 by {}
        let w = choose|i: int| 0 <= i < s.len() && #[trigger] s[i].0 == id;
        assert(r[w].0 == id);
        assert(has_license(r, id));
    } else {
        assert(r.len() == s.len() + 1);
        assert forall|i: int| 0 <= i < s.len() implies #[trigger] r[i] == s[i] by {}
        assert(r[s.len() as int].0 == id);
        assert(has_license(r, id));
    }
    assert(license_ids_unique(r)) by {
        assert forall|i: int, j: int| 0 <= i < j < r.len() implies #[trigger] r[i].0
            != #[trigger] r[j].0 by {
            if has_license(s, id) {
                assert(r[i].0 == s[i].0);
                assert(r[j].0 == s[j].0);
            } else if j == s.len() {
                assert(r[i] == s[i]);
            } else {
                assert(r[i] == s[i]);
                assert(r[j] == s[j]);
            }
        }
    }
    assert forall|k: Seq<char>| k != id implies license_text_of(r, k) == license_text_of(s, k) by {
        if has_license(s, k) {
            let j = choose|i: int| 0 <= i < s.len() && #[trigger] s[i].0 == k;
            assert(r[j] == s[j]);
            assert(has_license(r, k));
            let jr = choose|i: int| 0 <= i < r.len() && #[trigger] r[i].0 == k;
            if jr != j {
                if jr < s.len() {
                    assert(r[jr] == s[jr]);
                }
                assert(false);
            }
        } else {
            if has_license(r, k) {
                let jr = choose|i: int| 0 <= i < r.len() && #[trigger] r[i].0 == k;
                if jr < s.len() {
                    assert(r[jr].0 == s[jr].0);
                }
                assert(false);
            }
        }
    }
}

/// Names of the child elements of element `name`, whose open precedes `pos`, in
/// document order after those in `acc`; each child is passed over whole.
pub open spec fn child_names_from(evs: Seq<Event>, pos: int, name: Seq<char>, acc: Seq<Seq<char>>) -> Result<
    (Seq<Seq<char>>, int),
    ParseErrorModel,
>
    decreases evs.len() - pos,
{
    let len = evs.len() as int;
    if pos < 0 || pos >= len {
        Err(truncated(name))
    } else {
        match evs[pos] {
            Event::StartElement { local_name, .. } => match skip_from(evs, pos + 1, local_name@) {
                Ok(p) => if moved_on(pos, p, len) {
                    child_names_from(evs, p, name, acc.push(local_name@))
                } else {
                    Err(truncated(name))
                },
                Err(e) => Err(e),
            },
            Event::EndElement { local_name } => if local_name@ == name {
                Ok((acc, pos + 1))
            } else {
                Err(ParseErrorModel::UnexpectedEnd { expected: name, found: local_name@ })
            },
            Event::Text { .. } => child_names_from(evs, pos + 1, name, acc),
        }
    }
}

/// Names of the elements directly under the root `sdk-repository` element.
pub open spec fn root_children(evs: Seq<Event>) -> Result<(Seq<Seq<char>>, int), ParseErrorModel> {
    child_names_from(evs, 1, "sdk-repository"@, Seq::empty())
}

/// How many of `names` are `n`.
pub open spec fn count_named(names: Seq<Seq<char>>, n: Seq<char>) -> nat
    decreases names.len(),
{
    if names.len() == 0 {
        0
    } else {
        count_named(names.drop_last(), n) + if names.last() == n {
            1nat
        } else {
            0nat
        }
    }
}

/// Each kind of component in `m` is as many as the `names` of its element.
pub open spec fn counts_agree(m: RepositoryModel, names: Seq<Seq<char>>) -> bool {
    &&& m.ndks.len() == count_named(names, "ndk"@)
    &&& m.platforms.len() == count_named(names, "platform"@)
    &&& m.sources.len() == count_named(names, "source"@)
    &&& m.build_tools.len() == count_named(names, "build-tool"@)
    &&& m.platform_tools.len() == count_named(names, "platform-tool"@)
}

proof fn lemma_leaf_skips(evs: Seq<Event>, pos: int, name: Seq<char>, last: Seq<char>)
    requires
        leaf_from(evs, pos, name, last) is Ok,
    ensures
        skip_from(evs, pos, name) == Ok::<int, ParseErrorModel>(leaf_from(evs, pos, name, last)->Ok_0.1),
    decreases evs.len() - pos,
{
    if 0 <= pos < evs.len() {
        if let Event::Text { text } = evs[pos] {
            lemma_leaf_skips(evs, pos + 1, name, text@);
        }
    }
}

proof fn lemma_archive_skips(evs: Seq<Event>, pos: int, acc: ArchiveModel)
    requires
        archive_from(evs, pos, acc) is Ok,
    ensures
        skip_from(evs, pos, "archive"@) == Ok::<int, ParseErrorModel>(archive_from(evs, pos, acc)->Ok_0.1),
    decreases evs.len() - pos,
{
    if 0 <= pos < evs.len() {
        match evs[pos] {
            Event::StartElement { local_name, .. } => {
                let n = local_name@;
                if n == "checksum"@ || n == "url"@ {
                    let (t, q) = leaf_text(evs, pos + 1, n)->Ok_0;
                    lemma_leaf_skips(evs, pos + 1, n, Seq::empty());
                    if n == "checksum"@ {
                        lemma_archive_skips(evs, q, ArchiveModel { checksum: t, ..acc });
                    } else {
                        lemma_archive_skips(evs, q, ArchiveModel { url: t, ..acc });
                    }
                } else if n == "host-os"@ {
                    let (o, q) = host_os_leaf(evs, pos + 1)->Ok_0;
                    lemma_leaf_skips(evs, pos + 1, n, Seq::empty());
                    lemma_archive_skips(evs, q, ArchiveModel { host_os: Some(o), ..acc });
                } else if n == "host-bits"@ {
                    let (b, q) = host_bits_leaf(evs, pos + 1)->Ok_0;
                    lemma_leaf_skips(evs, pos + 1, n, Seq::empty());
                    lemma_archive_skips(evs, q, ArchiveModel { host_bits: Some(b), ..acc });
                } else {
                    let q = skip_from(evs, pos + 1, n)->Ok_0;
                    lemma_archive_skips(evs, q, acc);
                }
            },
            Event::EndElement { .. } => {},
            Event::Text { .. } => {
                lemma_archive_skips(evs, pos + 1, acc);
            },
        }
    }
}

proof fn lemma_archives_skips(evs: Seq<Event>, pos: int, acc: Seq<ArchiveModel>)
    requires
        archives_from(evs, pos, acc) is Ok,
    ensures
        skip_from(evs, pos, "archives"@) == Ok::<int, ParseErrorModel>(archives_from(evs, pos, acc)->Ok_0.1),
    decreases evs.len() - pos,
{
    if 0 <= pos < evs.len() {
        match evs[pos] {
            Event::StartElement { local_name, .. } => {
                let n = local_name@;
                if n == "archive"@ {
                    let (a, q) = archive_from(evs, pos + 1, empty_archive())->Ok_0;
                    lemma_archive_skips(evs, pos + 1, empty_archive());
                    lemma_archives_skips(evs, q, acc.push(a));
                } else {
                    let q = skip_from(evs, pos + 1, n)->Ok_0;
                    lemma_archives_skips(evs, q, acc);
                }
            },
            Event::EndElement { .. } => {},
            Event::Text { .. } => {
                lemma_archives_skips(evs, pos + 1, acc);
            },
        }
    }
}

proof fn lemma_revision_skips(evs: Seq<Event>, pos: int, acc: Revision)
    requires
        revision_from(evs, pos, acc) is Ok,
    ensures
        skip_from(evs, pos, "revision"@) == Ok::<int, ParseErrorModel>(revision_from(evs, pos, acc)->Ok_0.1),
    decreases evs.len() - pos,
{
    if 0 <= pos < evs.len() {
        match evs[pos] {
            Event::StartElement { local_name, .. } => {
                let n = local_name@;
                if is_revision_part(n) {
                    let (v, q) = u32_leaf(evs, pos + 1, n)->Ok_0;
                    lemma_leaf_skips(evs, pos + 1, n, Seq::empty());
                    lemma_revision_skips(evs, q, with_revision_part(acc, n, v));
                } else {
                    let q = skip_from(evs, pos + 1, n)->Ok_0;
                    lemma_revision_skips(evs, q, acc);
                }
            },
            Event::EndElement { .. } => {},
            Event::Text { .. } => {
                lemma_revision_skips(evs, pos + 1, acc);
            },
        }
    }
}

proof fn lemma_component_skips(evs: Seq<Event>, pos: int, kind: ComponentKind, acc: ComponentModel)
    requires
        component_from(evs, pos, kind, acc) is Ok,
    ensures
        skip_from(evs, pos, kind.spec_tag()) == Ok::<int, ParseErrorModel>(
            component_from(evs, pos, kind, acc)->Ok_0.1,
        ),
    decreases evs.len() - pos,
{
    if 0 <= pos < evs.len() {
        match evs[pos] {
            Event::StartElement { local_name, attributes } => {
                let n = local_name@;
                if n == "uses-license"@ {
                    let r = attribute_value(attributes@, "ref"@)->Some_0;
                    let q = skip_from(evs, pos + 1, n)->Ok_0;
                    lemma_component_skips(
                        evs,
                        q,
                        kind,
                        ComponentModel { uses_license: Some(r), ..acc },
                    );
                } else if n == "api-level"@ && kind.has_api_level() {
                    let (v, q) = u32_leaf(evs, pos + 1, n)->Ok_0;
                    lemma_leaf_skips(evs, pos + 1, n, Seq::empty());
                    lemma_component_skips(evs, q, kind, ComponentModel { api_level: v, ..acc });
                } else if n == "revision"@ && kind.has_full_revision() {
                    let (v, q) = revision_from(evs, pos + 1, zero_revision())->Ok_0;
                    lemma_revision_skips(evs, pos + 1, zero_revision());
                    lemma_component_skips(evs, q, kind, ComponentModel { full_revision: v, ..acc });
                } else if n == "revision"@ {
                    let (v, q) = u32_leaf(evs, pos + 1, n)->Ok_0;
                    lemma_leaf_skips(evs, pos + 1, n, Seq::empty());
                    lemma_component_skips(evs, q, kind, ComponentModel { revision: v, ..acc });
                } else if n == "archives"@ {
                    let (a, q) = archives_from(evs, pos + 1, Seq::empty())->Ok_0;
                    lemma_archives_skips(evs, pos + 1, Seq::empty());
                    lemma_component_skips(evs, q, kind, ComponentModel { archives: a, ..acc });
                } else {
                    let q = skip_from(evs, pos + 1, n)->Ok_0;
                    lemma_component_skips(evs, q, kind, acc);
                }
            },
            Event::EndElement { .. } => {},
            Event::Text { .. } => {
                lemma_component_skips(evs, pos + 1, kind, acc);
            },
        }
    }
}

proof fn lemma_count_push(names: Seq<Seq<char>>, x: Seq<char>, n: Seq<char>)
    ensures
        count_named(names.push(x), n) == count_named(names, n) + if x == n {
            1nat
        } else {
            0nat
        },
{
    assert(names.push(x).drop_last() =~= names);
}

proof fn lemma_tags_distinct()
    ensures
        "license"@ != "ndk"@,
        "license"@ != "platform"@,
        "license"@ != "source"@,
        "license"@ != "build-tool"@,
        "license"@ != "platform-tool"@,
        "ndk"@ != "platform"@,
        "ndk"@ != "source"@,
        "ndk"@ != "build-tool"@,
        "ndk"@ != "platform-tool"@,
        "platform"@ != "source"@,
        "platform"@ != "build-tool"@,
        "platform"@ != "platform-tool"@,
        "source"@ != "build-tool"@,
        "source"@ != "platform-tool"@,
        "build-tool"@ != "platform-tool"@,
{
    reveal_strlit("license");
    reveal_strlit("ndk");
    reveal_strlit("platform");
    reveal_strlit("source");
    reveal_strlit("build-tool");
    reveal_strlit("platform-tool");
    assert("license"@.len() == 7);
    assert("ndk"@.len() == 3);
    assert("platform"@.len() == 8);
    assert("source"@.len() == 6);
    assert("build-tool"@.len() == 10);
    assert("platform-tool"@.len() == 13);
}

proof fn lemma_repository_counts(evs: Seq<Event>, pos: int, acc: RepositoryModel, names: Seq<Seq<char>>)
    requires
        repository_from(evs, pos, acc) is Ok,
        counts_agree(acc, names),
        license_ids_unique(acc.licenses),
    ensures
        child_names_from(evs, pos, "sdk-repository"@, names) is Ok,
        child_names_from(evs, pos, "sdk-repository"@, names)->Ok_0.1 == repository_from(
            evs,
            pos,
            acc,
        )->Ok_0.1,
        counts_agree(
            repository_from(evs, pos, acc)->Ok_0.0,
            child_names_from(evs, pos, "sdk-repository"@, names)->Ok_0.0,
        ),
        license_ids_unique(repository_from(evs, pos, acc)->Ok_0.0.licenses),
    decreases evs.len() - pos,
{
    if 0 <= pos < evs.len() {
        match evs[pos] {
            Event::StartElement { local_name, attributes } => {
                let n = local_name@;
                let names2 = names.push(n);
                lemma_tags_distinct();
                lemma_count_push(names, n, "ndk"@);
                lemma_count_push(names, n, "platform"@);
                lemma_count_push(names, n, "source"@);
                lemma_count_push(names, n, "build-tool"@);
                lemma_count_push(names, n, "platform-tool"@);
                if n == "license"@ {
                    let (t, q) = leaf_text(evs, pos + 1, n)->Ok_0;
                    lemma_leaf_skips(evs, pos + 1, n, Seq::empty());
                    let id = attribute_value(attributes@, "id"@)->Some_0;
                    lemma_license_last_wins(acc.licenses, id, t);
                    lemma_repository_counts(
                        evs,
                        q,
                        RepositoryModel { licenses: license_insert(acc.licenses, id, t), ..acc },
                        names2,
                    );
                } else {
                    match kind_named(n) {
                        Some(k) => {
                            let (c, q) = component_from(evs, pos + 1, k, empty_component())->Ok_0;
                            lemma_component_skips(evs, pos + 1, k, empty_component());
                            lemma_repository_counts(evs, q, add_component(acc, k, c), names2);
                        },
                        None => {
                            let q = skip_from(evs, pos + 1, n)->Ok_0;
                            lemma_repository_counts(evs, q, acc, names2);
                        },
                    }
                }
            },
            Event::EndElement { .. } => {},
            Event::Text { .. } => {
                lemma_repository_counts(evs, pos + 1, acc, names);
            },
        }
    }
}

/// A manifest that parses has, of each kind of component, as many as the root element
/// has child elements of that kind's name; and its license ids are unique.
pub proof fn lemma_component_counts(evs: Seq<Event>)
    requires
        sdk_repository_of(evs) is Ok,
    ensures
        root_children(evs) is Ok,
        counts_agree(sdk_repository_of(evs)->Ok_0, root_children(evs)->Ok_0.0),
        license_ids_unique(sdk_repository_of(evs)->Ok_0.licenses),
{
    assert(counts_agree(empty_repository(), Seq::empty()));
    lemma_repository_counts(evs, 1, empty_repository(), Seq::empty());
}

/// Passing over an element takes at least its open's successor and stays in the stream.
pub proof fn lemma_skip_moves_on(evs: Seq<Event>, pos: int, name: Seq<char>)
    requires
        skip_from(evs, pos, name) is Ok,
    ensures
        pos < skip_from(evs, pos, name)->Ok_0 <= evs.len(),
    decreases evs.len() - pos,
{
    if 0 <= pos < evs.len() {
        match evs[pos] {
            Event::StartElement { local_name, .. } => {
                let q = skip_from(evs, pos + 1, local_name@)->Ok_0;
                lemma_skip_moves_on(evs, q, name);
            },
            Event::EndElement { .. } => {},
            Event::Text { .. } => {
                lemma_skip_moves_on(evs, pos + 1, name);
            },
        }
    }
}

/// The child elements that a component of `kind` reads; any other is passed over.
pub open spec fn known_component_child(kind: ComponentKind, n: Seq<char>) -> bool {
    n == "uses-license"@ || (n == "api-level"@ && kind.has_api_level()) || n == "revision"@
        || n == "archives"@
}

/// An element that a component does not know neither fails the component nor changes
/// it: reading goes on after that element's close with the fields as they were.
pub proof fn lemma_unknown_child_passed_over(
    evs: Seq<Event>,
    pos: int,
    kind: ComponentKind,
    acc: ComponentModel,
)
    requires
        0 <= pos < evs.len(),
        evs[pos] is StartElement,
        !known_component_child(kind, evs[pos]->StartElement_local_name@),
        skip_from(evs, pos + 1, evs[pos]->StartElement_local_name@) is Ok,
    ensures
        component_from(evs, pos, kind, acc) == component_from(
            evs,
            skip_from(evs, pos + 1, evs[pos]->StartElement_local_name@)->Ok_0,
            kind,
            acc,
        ),
{
    lemma_skip_moves_on(evs, pos + 1, evs[pos]->StartElement_local_name@);
}

} // verus!
