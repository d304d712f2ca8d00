//! The environments of a `platformio.ini`, with `extends` and `${env...}`
//! references resolved.
//!
//! The file's text is parsed by the `configparser` crate. From the sections it
//! finds, the environments are built in three passes: the `env:` sections are
//! collected, each environment inherits what the one it extends has, and the
//! references in its values are replaced.
//!
//! Environments and their properties are kept in the order in which they were
//! found, and everything here is stated over that order: a property list is a
//! `Props`, the environments are an `Envs`.

use crate::table::{
    assoc_distinct, assoc_get, assoc_has, assoc_index, assoc_keys, assoc_map, assoc_mapped,
    assoc_put, lemma_assoc_at, lemma_assoc_mapped, lemma_assoc_mapped_put, lemma_assoc_put,
    StringMap,
};
use crate::text::{
    after_prefix, concat3, contains_str, content_lines, str_eq, strip_prefix, text_view,
    trimmed_lines, views,
};
use vstd::prelude::*;

verus! {

/// Matches `${env.key}` and `${env:name.key}`.
pub const ENV_INTERPOLATION_PATTERN: &'static str = r"\$\{env(?::([^.}]+))?\.([^}]+)\}";

/// The most rounds in which references are replaced.
pub const MAX_INTERPOLATION_ROUNDS: usize = 10;

/// One environment of a project.
#[derive(Debug, Clone)]
pub struct DiscoveredEnvironment {
    pub name: String,
    pub extends: Option<String>,
    pub platform: String,
    pub board: Option<String>,
    pub framework: Option<String>,
    pub build_flags: Vec<String>,
    pub lib_deps: Vec<String>,
    pub is_hardware_target: bool,
    pub can_upload: bool,
}

/// An environment with its texts as sequences of characters.
pub struct EnvironmentView {
    pub name: Seq<char>,
    pub extends: Option<Seq<char>>,
    pub platform: Seq<char>,
    pub board: Option<Seq<char>>,
    pub framework: Option<Seq<char>>,
    pub build_flags: Seq<Seq<char>>,
    pub lib_deps: Seq<Seq<char>>,
    pub is_hardware_target: bool,
    pub can_upload: bool,
}

impl View for DiscoveredEnvironment {
    type V = EnvironmentView;

    open spec fn view(&self) -> EnvironmentView {
        EnvironmentView {
            name: self.name@,
            extends: text_view(self.extends),
            platform: self.platform@,
            board: text_view(self.board),
            framework: text_view(self.framework),
            build_flags: views(self.build_flags@),
            lib_deps: views(self.lib_deps@),
            is_hardware_target: self.is_hardware_target,
            can_upload: self.can_upload,
        }
    }
}

/// The views of the environments of `environments`.
pub open spec fn environment_views(environments: Seq<DiscoveredEnvironment>) -> Seq<
    EnvironmentView,
> {
    environments.map_values(|e: DiscoveredEnvironment| e@)
}

/// The environments of a project.
#[derive(Debug, Clone)]
pub struct PlatformioConfig {
    pub environments: Vec<DiscoveredEnvironment>,
}

/// The properties of an environment: keys and values, in order, each key once.
pub type Props = Seq<(Seq<char>, Seq<char>)>;

/// The environments by name, in order, each name once.
pub type Envs = Seq<(Seq<char>, Props)>;

/// The keys of a section as they were parsed: with the value, where the line
/// gave one.
pub type IniEntries = Vec<(String, Option<String>)>;

/// The sections of a file as they were parsed.
pub type IniSections = Vec<(String, IniEntries)>;

/// Takes a string to its characters.
pub open spec fn text_fn() -> spec_fn(String) -> Seq<char> {
    |v: String| v@
}

/// The properties of a table, in its order.
pub open spec fn props_view(props: StringMap<String>) -> Props {
    assoc_mapped(props.listing(), text_fn())
}

/// Takes a table of properties to its properties.
pub open spec fn props_fn() -> spec_fn(StringMap<String>) -> Props {
    |p: StringMap<String>| props_view(p)
}

/// The environments of a table, in its order.
pub open spec fn envs_view(envs: StringMap<StringMap<String>>) -> Envs {
    assoc_mapped(envs.listing(), props_fn())
}

/// The table of environments and each table of properties in it are well-formed.
pub open spec fn envs_wf(envs: StringMap<StringMap<String>>) -> bool {
    &&& envs.wf()
    &&& forall|i: int| 0 <= i < envs.listing().len() ==> (#[trigger] envs.listing()[i]).1.wf()
}

/// The keys of a parsed section with their values.
pub open spec fn entries_view(entries: Seq<(String, Option<String>)>) -> Seq<
    (Seq<char>, Option<Seq<char>>),
> {
    entries.map_values(|e: (String, Option<String>)| (e.0@, text_view(e.1)))
}

/// The parsed sections with their keys.
pub open spec fn sections_view(sections: Seq<(String, IniEntries)>) -> Seq<
    (Seq<char>, Seq<(Seq<char>, Option<Seq<char>>)>),
> {
    sections.map_values(|s: (String, IniEntries)| (s.0@, entries_view(s.1@)))
}

/// What `props` binds `key` to.
pub fn prop<'a>(props: &'a StringMap<String>, key: &str) -> (r: Option<&'a String>)
    requires
        props.wf(),
    ensures
        match r {
            Some(v) => assoc_get(props_view(*props), key@) == Some(v@),
            None => assoc_get(props_view(*props), key@) is None,
        },
{
    proof {
        props.lemma_listing();
        lemma_assoc_mapped(props.listing(), text_fn(), key@);
    }
    props.get(key)
}

/// Binds `key` to `value` in `props`.
pub fn put_prop(props: &mut StringMap<String>, key: String, value: String)
    requires
        old(props).wf(),
    ensures
        final(props).wf(),
        props_view(*final(props)) == assoc_put(props_view(*old(props)), key@, value@),
{
    proof {
        props.lemma_listing();
        lemma_assoc_mapped_put(props.listing(), text_fn(), key@, value);
    }
    props.insert(key, value);
}

/// The properties of the environment `name`.
pub fn env<'a>(envs: &'a StringMap<StringMap<String>>, name: &str) -> (r: Option<
    &'a StringMap<String>,
>)
    requires
        envs_wf(*envs),
    ensures
        match r {
            Some(p) => p.wf() && assoc_get(envs_view(*envs), name@) == Some(props_view(*p)),
            None => assoc_get(envs_view(*envs), name@) is None,
        },
{
    proof {
        envs.lemma_listing();
        lemma_assoc_mapped(envs.listing(), props_fn(), name@);
    }
    let r = envs.get(name);
    proof {
        if r is Some {
            let i = assoc_index(envs.listing(), name@);
            assert(envs.listing()[i].1.wf());
        }
    }
    r
}

/// Binds the environment `name` to `props`.
pub fn put_env(envs: &mut StringMap<StringMap<String>>, name: String, props: StringMap<String>)
    requires
        envs_wf(*old(envs)),
        props.wf(),
    ensures
        envs_wf(*final(envs)),
        envs_view(*final(envs)) == assoc_put(envs_view(*old(envs)), name@, props_view(props)),
{
    proof {
        envs.lemma_listing();
        lemma_assoc_mapped_put(envs.listing(), props_fn(), name@, props);
    }
    let ghost before = envs.listing();
    envs.insert(name, props);
    proof {
        let after = envs.listing();
        assert forall|i: int| 0 <= i < after.len() implies (#[trigger] after[i]).1.wf() by {
            if assoc_has(before, name@) {
                if i != assoc_index(before, name@) {
                    assert(after[i] == before[i]);
                }
            } else {
                if i < before.len() {
                    assert(after[i] == before[i]);
                }
            }
        }
    }
}

/// The properties that a section gives a value, in the order of the section.
pub open spec fn section_props(entries: Seq<(Seq<char>, Option<Seq<char>>)>) -> Props
    decreases entries.len(),
{
    if entries.len() == 0 {
        Seq::empty()
    } else {
        let rest = section_props(entries.drop_last());
        match entries.last().1 {
            Some(value) => assoc_put(rest, entries.last().0, value),
            None => rest,
        }
    }
}

/// The environments among `sections`: each section `env:NAME`, as `NAME`.
pub open spec fn raw_envs(sections: Seq<(Seq<char>, Seq<(Seq<char>, Option<Seq<char>>)>)>) -> Envs
    decreases sections.len(),
{
    if sections.len() == 0 {
        Seq::empty()
    } else {
        let rest = raw_envs(sections.drop_last());
        match after_prefix(sections.last().0, "env:"@) {
            Some(name) => assoc_put(rest, name, section_props(sections.last().1)),
            None => rest,
        }
    }
}

fn collect_props(entries: &IniEntries) -> (props: StringMap<String>)
    ensures
        props.wf(),
        props_view(props) == section_props(entries_view(entries@)),
{
    let ghost all = entries_view(entries@);
    let mut props: StringMap<String> = StringMap::new();
    let mut i: usize = 0;
    assert(props_view(props) =~= Seq::empty());
    assert(all.take(0) =~= Seq::empty());
    while i < entries.len()
        invariant
            i <= entries@.len(),
            all == entries_view(entries@),
            props.wf(),
            props_view(props) == section_props(all.take(i as int)),
        decreases entries@.len() - i,
    {
        proof {
            assert(all.take(i as int + 1).drop_last() =~= all.take(i as int));
            assert(all.take(i as int + 1).last() == all[i as int]);
        }
        match &entries[i].1 {
            Some(value) => {
                put_prop(&mut props, entries[i].0.clone(), value.clone());
            },
            None => {},
        }
        i += 1;
    }
    assert(all.take(entries@.len() as int) =~= all);
    props
}

/// First pass: collects the environments among the sections.
pub fn collect_environments(sections: &IniSections) -> (envs: StringMap<StringMap<String>>)
    ensures
        envs_wf(envs),
        envs_view(envs) == raw_envs(sections_view(sections@)),
{
    let ghost all = sections_view(sections@);
    let mut envs: StringMap<StringMap<String>> = StringMap::new();
    let mut i: usize = 0;
    assert(envs_view(envs) =~= Seq::empty());
    assert(all.take(0) =~= Seq::empty());
    while i < sections.len()
        invariant
            i <= sections@.len(),
            all == sections_view(sections@),
            envs_wf(envs),
            envs_view(envs) == raw_envs(all.take(i as int)),
        decreases sections@.len() - i,
    {
        proof {
            assert(all.take(i as int + 1).drop_last() =~= all.take(i as int));
            assert(all.take(i as int + 1).last() == all[i as int]);
        }
        match strip_prefix(sections[i].0.as_str(), "env:") {
            Some(name) => {
                let props = collect_props(&sections[i].1);
                put_env(&mut envs, String::from_str(name), props);
            },
            None => {},
        }
        i += 1;
    }
    assert(all.take(sections@.len() as int) =~= all);
    envs
}

/// The items of a property that lists one item per line; none where the
/// property is not there.
pub open spec fn list_items(value: Option<Seq<char>>) -> Seq<Seq<char>> {
    match value {
        Some(text) => content_lines(text),
        None => Seq::empty(),
    }
}

/// Parses a multiline INI value into a list of items.
pub fn parse_multiline_list(value: Option<&String>) -> (items: Vec<String>)
    ensures
        views(items@) == list_items(
            match value {
                Some(text) => Some(text@),
                None => None,
            },
        ),
{
    match value {
        Some(text) => trimmed_lines(text.as_str()),
        None => {
            let items: Vec<String> = Vec::new();
            assert(views(items@) =~= Seq::<Seq<char>>::empty());
            items
        },
    }
}

/// The environment that `props` extends, without the `env:` it may be written
/// with.
pub open spec fn parent_name(props: Props) -> Option<Seq<char>> {
    match assoc_get(props, "extends"@) {
        Some(target) => Some(
            match after_prefix(target, "env:"@) {
                Some(name) => name,
                None => target,
            },
        ),
        None => None,
    }
}

/// The environment that `props` extends, without the `env:` it may be written
/// with.
pub fn parent_of(props: &StringMap<String>) -> (r: Option<String>)
    requires
        props.wf(),
    ensures
        text_view(r) == parent_name(props_view(*props)),
{
    match prop(props, "extends") {
        Some(target) => match strip_prefix(target.as_str(), "env:") {
            Some(name) => Some(String::from_str(name)),
            None => Some(target.clone()),
        },
        None => None,
    }
}

/// `value`, or the empty text where there is none.
pub open spec fn or_empty(value: Option<Seq<char>>) -> Seq<char> {
    match value {
        Some(v) => v,
        None => Seq::empty(),
    }
}

/// The environment `name` as it is shown: `raw` is what its own section says,
/// `props` what it has after inheritance and interpolation. Every platform but
/// `native` is hardware, and can be uploaded to.
pub open spec fn environment_of(name: Seq<char>, raw: Option<Props>, props: Props) -> EnvironmentView {
    let platform = or_empty(assoc_get(props, "platform"@));
    EnvironmentView {
        name,
        extends: match raw {
            Some(own) => parent_name(own),
            None => None,
        },
        platform,
        board: assoc_get(props, "board"@),
        framework: assoc_get(props, "framework"@),
        build_flags: list_items(assoc_get(props, "build_flags"@)),
        lib_deps: list_items(assoc_get(props, "lib_deps"@)),
        is_hardware_target: platform != "native"@,
        can_upload: platform != "native"@,
    }
}

fn cloned(value: Option<&String>) -> (r: Option<String>)
    ensures
        text_view(r) == (match value {
            Some(v) => Some(v@),
            None => None,
        }),
{
    match value {
        Some(v) => Some(v.clone()),
        None => None,
    }
}

/// Builds the environment `name` from its own section and its resolved properties.
pub fn environment(name: &str, raw: Option<&StringMap<String>>, props: &StringMap<String>) -> (e:
    DiscoveredEnvironment)
    requires
        props.wf(),
        raw matches Some(own) ==> own.wf(),
    ensures
        e@ == environment_of(
            name@,
            match raw {
                Some(own) => Some(props_view(*own)),
                None => None,
            },
            props_view(*props),
        ),
{
    let platform = match prop(props, "platform") {
        Some(p) => p.clone(),
        None => String::new(),
    };
    let is_native = str_eq(platform.as_str(), "native");
    let extends = match raw {
        Some(own) => parent_of(own),
        None => None,
    };
    DiscoveredEnvironment {
        name: String::from_str(name),
        extends,
        platform,
        board: cloned(prop(props, "board")),
        framework: cloned(prop(props, "framework")),
        build_flags: parse_multiline_list(prop(props, "build_flags")),
        lib_deps: parse_multiline_list(prop(props, "lib_deps")),
        is_hardware_target: !is_native,
        can_upload: !is_native,
    }
}

/// What is said of an environment that extends itself, directly or not.
pub open spec fn circular_message(name: Seq<char>) -> Seq<char> {
    "Circular extends detected for environment '"@ + name + "'"@
}

/// What is said of an environment that does not exist.
pub open spec fn not_found_message(name: Seq<char>) -> Seq<char> {
    "Environment '"@ + name + "' not found"@
}

/// What an environment has that extends another: what it inherits, with its own
/// properties over it. That it extends is not itself inherited.
pub open spec fn merged(inherited: Props, own: Props) -> Props
    decreases own.len(),
{
    if own.len() == 0 {
        inherited
    } else {
        let rest = merged(inherited, own.drop_last());
        if own.last().0 == "extends"@ {
            rest
        } else {
            assoc_put(rest, own.last().0, own.last().1)
        }
    }
}

/// The environments passed on the way up are each an environment, and none was
/// passed twice.
pub open spec fn visited_ok(envs: Envs, visited: Seq<Seq<char>>) -> bool {
    &&& visited.no_duplicates()
    &&& forall|i: int| 0 <= i < visited.len() ==> assoc_has(envs, #[trigger] visited[i])
}

/// No more environments can have been passed than there are.
pub proof fn lemma_visited_bounded(envs: Envs, visited: Seq<Seq<char>>)
    requires
        visited_ok(envs, visited),
    ensures
        visited.len() <= envs.len(),
{
    let keys = assoc_keys(envs);
    visited.unique_seq_to_set();
    keys.lemma_cardinality_of_set();
    vstd::seq_lib::seq_to_set_is_finite(keys);
    assert(visited.to_set().subset_of(keys.to_set())) by {
        assert forall|v: Seq<char>| visited.to_set().contains(v) implies keys.to_set().contains(
            v,
        ) by {
            let i = visited.index_of(v);
            assert(visited[i] == v);
            let j = assoc_index(envs, v);
            assert(keys[j] == v);
        }
    }
    vstd::set_lib::lemma_len_subset(visited.to_set(), keys.to_set());
}

/// The properties of the environment `name` with all that it inherits, where
/// `visited` are the environments that were passed to get to it. An environment
/// that comes up a second time makes a circle, which is an error, as is one that
/// does not exist.
pub open spec fn resolved_from(envs: Envs, name: Seq<char>, visited: Seq<Seq<char>>) -> Result<
    Props,
    Seq<char>,
>
    decreases envs.len() - visited.len(),
    when visited_ok(envs, visited)
{
    if visited.contains(name) {
        Err(circular_message(name))
    } else if !assoc_has(envs, name) {
        Err(not_found_message(name))
    } else {
        let own = envs[assoc_index(envs, name)].1;
        match parent_name(own) {
            Some(parent) => {
                proof {
                    lemma_visited_bounded(envs, visited.push(name));
                }
                match resolved_from(envs, parent, visited.push(name)) {
                    Ok(inherited) => Ok(merged(inherited, own)),
                    Err(e) => Err(e),
                }
            },
            None => Ok(own),
        }
    }
}

/// The properties of the environment `name` with all that it inherits.
pub open spec fn resolved(envs: Envs, name: Seq<char>) -> Result<Props, Seq<char>> {
    resolved_from(envs, name, Seq::empty())
}

/// A copy of `props`.
pub fn copy_props(props: &StringMap<String>) -> (copy: StringMap<String>)
    requires
        props.wf(),
    ensures
        copy.wf(),
        props_view(copy) == props_view(*props),
{
    let ghost all = props_view(*props);
    proof {
        props.lemma_listing();
        lemma_assoc_mapped(props.listing(), text_fn(), Seq::empty());
    }
    let mut copy: StringMap<String> = StringMap::new();
    let mut i: usize = 0;
    assert(props_view(copy) =~= all.take(0));
    while i < props.len()
        invariant
            i <= props.listing().len(),
            props.wf(),
            all == props_view(*props),
            assoc_distinct(all),
            copy.wf(),
            props_view(copy) == all.take(i as int),
        decreases props.listing().len() - i,
    {
        let key = props.key_at(i).clone();
        let value = props.value_at(i).clone();
        proof {
            let sofar = all.take(i as int);
            assert(all[i as int] == (key@, value@));
            if assoc_has(sofar, key@) {
                let j = assoc_index(sofar, key@);
                assert(all[j].0 == sofar[j].0);
            }
            assert(assoc_put(sofar, key@, value@) =~= all.take(i as int + 1));
        }
        put_prop(&mut copy, key, value);
        i += 1;
    }
    assert(all.take(props.listing().len() as int) =~= all);
    copy
}

/// What inheriting comes to: a key that the environment defines itself has the
/// value it gives it, any other key the value that is inherited, and `extends`
/// is inherited but never passed on from the environment's own properties.
pub proof fn lemma_merged(inherited: Props, own: Props, key: Seq<char>)
    requires
        assoc_distinct(inherited),
        assoc_distinct(own),
    ensures
        assoc_distinct(merged(inherited, own)),
        assoc_get(merged(inherited, own), key) == (if key != "extends"@ && assoc_has(own, key) {
            assoc_get(own, key)
        } else {
            assoc_get(inherited, key)
        }),
    decreases own.len(),
{
    if own.len() > 0 {
        let front = own.drop_last();
        let last = own.last();
        let n = front.len() as int;
        assert forall|i: int, j: int| 0 <= i < j < front.len() implies front[i].0
            != front[j].0 by {
            assert(front[i] == own[i]);
            assert(front[j] == own[j]);
        }
        lemma_merged(inherited, front, key);
        let rest = merged(inherited, front);
        lemma_assoc_at(own, n);
        if assoc_has(front, key) {
            let i = assoc_index(front, key);
            assert(own[i] == front[i]);
            lemma_assoc_at(own, i);
            lemma_assoc_at(front, i);
        }
        if assoc_has(own, key) && key != last.0 {
            let i = assoc_index(own, key);
            assert(front[i] == own[i]);
            lemma_assoc_at(front, i);
            lemma_assoc_at(own, i);
        }
        if last.0 != "extends"@ {
            lemma_assoc_put(rest, last.0, last.1);
        }
    }
}

/// The environments have each name once, and each has each key once.
pub open spec fn envs_distinct(envs: Envs) -> bool {
    &&& assoc_distinct(envs)
    &&& forall|i: int| 0 <= i < envs.len() ==> assoc_distinct((#[trigger] envs[i]).1)
}

/// What resolving comes to, where it succeeds. An environment that extends none
/// has its own properties. One that extends another has, for each key it
/// defines itself, its own value, and for any other key the value that the
/// environment it extends has when resolved. Either way `extends` is not
/// among the resolved properties.
pub proof fn lemma_resolved_from(
    envs: Envs,
    name: Seq<char>,
    visited: Seq<Seq<char>>,
    key: Seq<char>,
)
    requires
        envs_distinct(envs),
        visited_ok(envs, visited),
        resolved_from(envs, name, visited) is Ok,
    ensures
        assoc_has(envs, name),
        assoc_distinct(resolved_from(envs, name, visited)->Ok_0),
        !assoc_has(resolved_from(envs, name, visited)->Ok_0, "extends"@),
        match parent_name(envs[assoc_index(envs, name)].1) {
            None => resolved_from(envs, name, visited)->Ok_0 == envs[assoc_index(envs, name)].1,
            Some(parent) => resolved_from(envs, parent, visited.push(name)) is Ok && assoc_get(
                resolved_from(envs, name, visited)->Ok_0,
                key,
            ) == (if key != "extends"@ && assoc_has(envs[assoc_index(envs, name)].1, key) {
                assoc_get(envs[assoc_index(envs, name)].1, key)
            } else {
                assoc_get(resolved_from(envs, parent, visited.push(name))->Ok_0, key)
            }),
        },
    decreases envs.len() - visited.len(),
{
    let own = envs[assoc_index(envs, name)].1;
    match parent_name(own) {
        Some(parent) => {
            let passed = visited.push(name);
            lemma_visited_bounded(envs, passed);
            lemma_resolved_from(envs, parent, passed, key);
            lemma_resolved_from(envs, parent, passed, "extends"@);
            let inherited = resolved_from(envs, parent, passed)->Ok_0;
            lemma_merged(inherited, own, key);
            lemma_merged(inherited, own, "extends"@);
        },
        None => {},
    }
}

fn merge_props(inherited: StringMap<String>, own: &StringMap<String>) -> (r: StringMap<String>)
    requires
        inherited.wf(),
        own.wf(),
    ensures
        r.wf(),
        props_view(r) == merged(props_view(inherited), props_view(*own)),
{
    let ghost all = props_view(*own);
    let ghost base = props_view(inherited);
    let mut r = inherited;
    let mut i: usize = 0;
    assert(all.take(0) =~= Seq::empty());
    while i < own.len()
        invariant
            i <= own.listing().len(),
            own.wf(),
            all == props_view(*own),
            r.wf(),
            props_view(r) == merged(base, all.take(i as int)),
        decreases own.listing().len() - i,
    {
        let key = own.key_at(i);
        let value = own.value_at(i);
        proof {
            assert(all.take(i as int + 1).drop_last() =~= all.take(i as int));
            assert(all.take(i as int + 1).last() == (key@, value@));
        }
        if !str_eq(key.as_str(), "extends") {
            put_prop(&mut r, key.clone(), value.clone());
        }
        i += 1;
    }
    assert(all.take(own.listing().len() as int) =~= all);
    r
}

/// Resolves what the environment `env_name` inherits, where `visited` are the
/// environments that were passed to get to it.
pub fn resolve_extends_internal(
    envs: &StringMap<StringMap<String>>,
    env_name: &str,
    visited: &Vec<String>,
) -> (r: Result<StringMap<String>, String>)
    requires
        envs_wf(*envs),
        visited_ok(envs_view(*envs), views(visited@)),
    ensures
        match r {
            Ok(props) => props.wf() && resolved_from(envs_view(*envs), env_name@, views(visited@))
                == Ok::<Props, Seq<char>>(props_view(props)),
            Err(e) => resolved_from(envs_view(*envs), env_name@, views(visited@)) == Err::<
                Props,
                Seq<char>,
            >(e@),
        },
    decreases envs.listing().len() - visited@.len(),
{
    if contains_str(visited, env_name) {
        return Err(concat3("Circular extends detected for environment '", env_name, "'"));
    }
    let own = match env(envs, env_name) {
        Some(own) => own,
        None => {
            return Err(concat3("Environment '", env_name, "' not found"));
        },
    };
    proof {
        envs.lemma_listing();
        lemma_assoc_mapped(envs.listing(), props_fn(), env_name@);
    }
    match parent_of(own) {
        Some(parent) => {
            let mut passed = visited.clone();
            passed.push(String::from_str(env_name));
            proof {
                assert(views(passed@) =~= views(visited@).push(env_name@));
                lemma_visited_bounded(envs_view(*envs), views(passed@));
            }
            match resolve_extends_internal(envs, parent.as_str(), &passed) {
                Ok(inherited) => Ok(merge_props(inherited, own)),
                Err(e) => Err(e),
            }
        },
        None => Ok(copy_props(own)),
    }
}

/// Resolves `extends` inheritance: the properties of the environment `env_name`
/// with all that it inherits.
pub fn resolve_extends(envs: &StringMap<StringMap<String>>, env_name: &str) -> (r: Result<
    StringMap<String>,
    String,
>)
    requires
        envs_wf(*envs),
    ensures
        match r {
            Ok(props) => props.wf() && resolved(envs_view(*envs), env_name@) == Ok::<
                Props,
                Seq<char>,
            >(props_view(props)),
            Err(e) => resolved(envs_view(*envs), env_name@) == Err::<Props, Seq<char>>(e@),
        },
{
    let visited: Vec<String> = Vec::new();
    assert(views(visited@) =~= Seq::<Seq<char>>::empty());
    resolve_extends_internal(envs, env_name, &visited)
}

/// Takes properties to the map they stand for.
pub open spec fn map_fn() -> spec_fn(Props) -> Map<Seq<char>, Seq<char>> {
    |p: Props| assoc_map(p)
}

/// The environments as a map from the name to the map of the properties.
pub open spec fn envs_map(envs: Envs) -> Map<Seq<char>, Map<Seq<char>, Seq<char>>> {
    assoc_map(assoc_mapped(envs, map_fn()))
}

/// What stands in the place of a reference. `env_name` and `ref_key` are what
/// the reference names, `whole` is the reference as it stands. A reference
/// without a key stays as it is; one to a property that is not there is
/// replaced by nothing.
pub open spec fn reference_text(
    env_name: Option<Seq<char>>,
    ref_key: Option<Seq<char>>,
    whole: Option<Seq<char>>,
    props: Map<Seq<char>, Seq<char>>,
    envs: Map<Seq<char>, Map<Seq<char>, Seq<char>>>,
) -> Seq<char> {
    let key = or_empty(ref_key);
    if key.len() == 0 {
        or_empty(whole)
    } else {
        match env_name {
            None => if props.contains_key(key) {
                props[key]
            } else {
                Seq::empty()
            },
            Some(name) => if envs.contains_key(name) && envs[name].contains_key(key) {
                envs[name][key]
            } else {
                Seq::empty()
            },
        }
    }
}

/// The view of a text that may not be there.
pub open spec fn str_view(text: Option<&str>) -> Option<Seq<char>> {
    match text {
        Some(t) => Some(t@),
        None => None,
    }
}

/// What stands in the place of one reference: the property `ref_key` of this
/// environment, or of the environment `env_name` where one is named.
pub fn reference_value(
    env_name: Option<&str>,
    ref_key: Option<&str>,
    whole: Option<&str>,
    props: &StringMap<String>,
    all_envs: &StringMap<StringMap<String>>,
) -> (r: String)
    requires
        props.wf(),
        envs_wf(*all_envs),
    ensures
        r@ == reference_text(
            str_view(env_name),
            str_view(ref_key),
            str_view(whole),
            assoc_map(props_view(*props)),
            envs_map(envs_view(*all_envs)),
        ),
{
    let key = match ref_key {
        Some(k) => k,
        None => "",
    };
    proof {
        reveal_strlit("");
        assert(""@ =~= Seq::<char>::empty());
    }
    if key.is_empty() {
        return match whole {
            Some(w) => String::from_str(w),
            None => String::new(),
        };
    }
    match env_name {
        None => match prop(props, key) {
            Some(value) => value.clone(),
            None => String::new(),
        },
        Some(name) => {
            proof {
                all_envs.lemma_listing();
                lemma_assoc_mapped(all_envs.listing(), props_fn(), name@);
                lemma_assoc_mapped(envs_view(*all_envs), map_fn(), name@);
            }
            match env(all_envs, name) {
                Some(other) => match prop(other, key) {
                    Some(value) => value.clone(),
                    None => String::new(),
                },
                None => String::new(),
            }
        },
    }
}

/// What `Regex::replace_all` makes of `value` with the regular expression
/// `pattern`, where each match is replaced by what `reference_text` gives for
/// its first group, its second group and the match itself; `value` where
/// `pattern` is no regular expression.
pub uninterp spec fn replaced_references(
    pattern: Seq<char>,
    value: Seq<char>,
    props: Map<Seq<char>, Seq<char>>,
    envs: Map<Seq<char>, Map<Seq<char>, Seq<char>>>,
) -> Seq<char>;

/// Compiles `pattern` with `regex::Regex::new` and replaces every match in
/// `value` with `Regex::replace_all`. The replacement of a match is what
/// `reference_value` returns for its groups 1 and 2 and the match itself, looked
/// up in `props` and `all_envs`. A pattern that does not compile leaves `value`
/// as it is.
#[verifier::external_body]
fn replace_references(
    pattern: &str,
    value: &str,
    props: &StringMap<String>,
    all_envs: &StringMap<StringMap<String>>,
) -> (r: String)
    requires
        props.wf(),
        envs_wf(*all_envs),
    ensures
        r@ == replaced_references(
            pattern@,
            value@,
            assoc_map(props_view(*props)),
            envs_map(envs_view(*all_envs)),
        ),
{
    match regex::Regex::new(pattern) {
        Ok(re) => re.replace_all(
            value,
            |caps: &regex::Captures| reference_value(
                caps.get(1).map(|m| m.as_str()),
                caps.get(2).map(|m| m.as_str()),
                caps.get(0).map(|m| m.as_str()),
                props,
                all_envs,
            ),
        ).into_owned(),
        Err(_) => value.to_string(),
    }
}

/// `value` with its references replaced.
pub open spec fn interpolated_value(value: Seq<char>, props: Props, envs: Envs) -> Seq<char> {
    replaced_references(ENV_INTERPOLATION_PATTERN@, value, assoc_map(props), envs_map(envs))
}

/// The property at `i` with its references replaced.
pub open spec fn interpolate_entry(props: Props, i: int, envs: Envs) -> Props {
    let value = interpolated_value(props[i].1, props, envs);
    if value != props[i].1 {
        props.update(i, (props[i].0, value))
    } else {
        props
    }
}

/// The first `n` properties, one after the other, with their references
/// replaced; each sees what the ones before it have become.
pub open spec fn interpolate_upto(props: Props, envs: Envs, n: int) -> Props
    decreases n,
{
    if n <= 0 {
        props
    } else {
        interpolate_entry(interpolate_upto(props, envs, n - 1), n - 1, envs)
    }
}

/// One round over all the properties.
pub open spec fn interpolate_round(props: Props, envs: Envs) -> Props {
    interpolate_upto(props, envs, props.len() as int)
}

/// Rounds over the properties until one changes nothing, at most `rounds` of them.
pub open spec fn interpolate(props: Props, envs: Envs, rounds: nat) -> Props
    decreases rounds,
{
    if rounds == 0 {
        props
    } else {
        let next = interpolate_round(props, envs);
        if next == props {
            props
        } else {
            interpolate(next, envs, (rounds - 1) as nat)
        }
    }
}

/// A round keeps the keys where they are.
pub proof fn lemma_interpolate_upto(props: Props, envs: Envs, n: int)
    requires
        0 <= n <= props.len(),
    ensures
        interpolate_upto(props, envs, n).len() == props.len(),
        assoc_keys(interpolate_upto(props, envs, n)) == assoc_keys(props),
        forall|j: int|
            n <= j < props.len() ==> interpolate_upto(props, envs, n)[j] == props[j],
    decreases n,
{
    if n > 0 {
        lemma_interpolate_upto(props, envs, n - 1);
        let before = interpolate_upto(props, envs, n - 1);
        let after = interpolate_upto(props, envs, n);
        assert(assoc_keys(after) =~= assoc_keys(before));
    }
}

/// Rounds keep the keys where they are.
pub proof fn lemma_interpolate(props: Props, envs: Envs, rounds: nat)
    ensures
        interpolate(props, envs, rounds).len() == props.len(),
        assoc_keys(interpolate(props, envs, rounds)) == assoc_keys(props),
    decreases rounds,
{
    if rounds > 0 {
        lemma_interpolate_upto(props, envs, props.len() as int);
        let next = interpolate_round(props, envs);
        if next != props {
            lemma_interpolate(next, envs, (rounds - 1) as nat);
        }
    }
}

/// `props` with `key` bound to `replaced` where that is another value than it has.
pub open spec fn with_replaced(props: Props, key: Seq<char>, replaced: Seq<char>) -> Props {
    if assoc_get(props, key) == Some(replaced) {
        props
    } else {
        assoc_put(props, key, replaced)
    }
}

/// Binds `key` to `replaced`, what its value has become with its references
/// replaced, and says whether that is another value than it had.
pub fn store_replaced(props: &mut StringMap<String>, key: &str, replaced: String) -> (changed: bool)
    requires
        old(props).wf(),
    ensures
        final(props).wf(),
        props_view(*final(props)) == with_replaced(props_view(*old(props)), key@, replaced@),
        changed == (assoc_get(props_view(*old(props)), key@) != Some(replaced@)),
{
    let same = match prop(props, key) {
        Some(value) => str_eq(value.as_str(), replaced.as_str()),
        None => false,
    };
    if same {
        false
    } else {
        put_prop(props, String::from_str(key), replaced);
        true
    }
}

fn interpolate_once(props: &mut StringMap<String>, all_envs: &StringMap<StringMap<String>>) -> (changed:
    bool)
    requires
        old(props).wf(),
        envs_wf(*all_envs),
    ensures
        final(props).wf(),
        props_view(*final(props)) == interpolate_round(
            props_view(*old(props)),
            envs_view(*all_envs),
        ),
        changed == (props_view(*final(props)) != props_view(*old(props))),
{
    let ghost start = props_view(*props);
    let ghost envs = envs_view(*all_envs);
    let keys = props.keys();
    let n = keys.len();
    proof {
        props.lemma_listing();
        lemma_assoc_mapped(props.listing(), text_fn(), Seq::empty());
        assert(views(keys@) =~= assoc_keys(start));
    }
    let mut changed = false;
    let mut i: usize = 0;
    while i < n
        invariant
            i <= n,
            n == keys@.len(),
            n == start.len(),
            envs == envs_view(*all_envs),
            envs_wf(*all_envs),
            views(keys@) == assoc_keys(start),
            assoc_distinct(start),
            props.wf(),
            props_view(*props) == interpolate_upto(start, envs, i as int),
            changed == (props_view(*props) != start),
        decreases n - i,
    {
        let ghost current = props_view(*props);
        proof {
            lemma_interpolate_upto(start, envs, i as int);
            props.lemma_listing();
            lemma_assoc_mapped(props.listing(), text_fn(), keys@[i as int]@);
            assert(assoc_keys(current)[i as int] == current[i as int].0);
            assert(assoc_keys(start)[i as int] == views(keys@)[i as int]);
            lemma_assoc_at(current, i as int);
        }
        let key = keys[i].as_str();
        let value = match prop(props, key) {
            Some(v) => v.clone(),
            None => String::new(),
        };
        assert(value@ == current[i as int].1);
        let replaced = replace_references(ENV_INTERPOLATION_PATTERN, value.as_str(), props, all_envs);
        if store_replaced(props, keys[i].as_str(), replaced) {
            proof {
                assert(props_view(*props)[i as int] != start[i as int]);
            }
            changed = true;
        } else {
            proof {
                if changed {
                    assert(current != start);
                }
            }
        }
        i += 1;
    }
    changed
}

/// Third pass, for one environment: replaces the `${env.key}` and
/// `${env:name.key}` references in its values, in rounds, so that a value that
/// refers to a value with a reference is resolved too.
pub fn resolve_interpolation(props: &mut StringMap<String>, all_envs: &StringMap<StringMap<String>>)
    requires
        old(props).wf(),
        envs_wf(*all_envs),
    ensures
        final(props).wf(),
        props_view(*final(props)) == interpolate(
            props_view(*old(props)),
            envs_view(*all_envs),
            MAX_INTERPOLATION_ROUNDS as nat,
        ),
{
    let ghost start = props_view(*props);
    let ghost envs = envs_view(*all_envs);
    let mut round: usize = 0;
    while round < MAX_INTERPOLATION_ROUNDS
        invariant
            round <= MAX_INTERPOLATION_ROUNDS,
            start == props_view(*old(props)),
            envs == envs_view(*all_envs),
            envs_wf(*all_envs),
            props.wf(),
            interpolate(start, envs, MAX_INTERPOLATION_ROUNDS as nat) == interpolate(
                props_view(*props),
                envs,
                (MAX_INTERPOLATION_ROUNDS - round) as nat,
            ),
        decreases MAX_INTERPOLATION_ROUNDS - round,
    {
        let ghost before = props_view(*props);
        let changed = interpolate_once(props, all_envs);
        if !changed {
            assert(interpolate(before, envs, (MAX_INTERPOLATION_ROUNDS - round) as nat) == before);
            return ;
        }
        assert(interpolate(before, envs, (MAX_INTERPOLATION_ROUNDS - round) as nat)
            == interpolate(
            props_view(*props),
            envs,
            (MAX_INTERPOLATION_ROUNDS - round - 1) as nat,
        ));
        round += 1;
    }
}

/// Second pass over the first `n` environments: each with what it inherits. The
/// first that cannot be resolved fails the pass.
pub open spec fn resolve_all(envs: Envs, n: int) -> Result<Envs, Seq<char>>
    decreases n,
{
    if n <= 0 {
        Ok(Seq::empty())
    } else {
        match resolve_all(envs, n - 1) {
            Err(e) => Err(e),
            Ok(done) => match resolved(envs, envs[n - 1].0) {
                Ok(props) => Ok(assoc_put(done, envs[n - 1].0, props)),
                Err(e) => Err(e),
            },
        }
    }
}

/// Third pass over the first `n` environments: each with its references
/// replaced. An environment sees the ones before it as they have become, and
/// the ones after it as they were.
pub open spec fn interpolate_all(envs: Envs, n: int) -> Envs
    decreases n,
{
    if n <= 0 {
        envs
    } else {
        let before = interpolate_all(envs, n - 1);
        before.update(
            n - 1,
            (
                before[n - 1].0,
                interpolate(before[n - 1].1, before, MAX_INTERPOLATION_ROUNDS as nat),
            ),
        )
    }
}

/// The environments as they are shown: `raw` as their sections say, `done` after
/// inheritance and interpolation.
pub open spec fn environments_of(raw: Envs, done: Envs) -> Seq<EnvironmentView> {
    Seq::new(raw.len(), |i: int| environment_of(raw[i].0, Some(raw[i].1), done[i].1))
}

/// What the sections of a file declare: its environments, or why they cannot
/// be resolved.
pub open spec fn config_of(sections: Seq<(Seq<char>, Seq<(Seq<char>, Option<Seq<char>>)>)>) -> Result<
    Seq<EnvironmentView>,
    Seq<char>,
> {
    let raw = raw_envs(sections);
    match resolve_all(raw, raw.len() as int) {
        Err(e) => Err(e),
        Ok(inherited) => Ok(
            environments_of(raw, interpolate_all(inherited, inherited.len() as int)),
        ),
    }
}

/// The second pass lists the environments in the order of the first.
pub proof fn lemma_resolve_all(envs: Envs, n: int)
    requires
        assoc_distinct(envs),
        0 <= n <= envs.len(),
    ensures
        resolve_all(envs, n) matches Ok(done) ==> assoc_keys(done) == assoc_keys(envs).take(n)
            && assoc_distinct(done),
    decreases n,
{
    if n > 0 {
        lemma_resolve_all(envs, n - 1);
        match resolve_all(envs, n - 1) {
            Ok(done) => {
                match resolved(envs, envs[n - 1].0) {
                    Ok(props) => {
                        let name = envs[n - 1].0;
                        assert(assoc_keys(done).len() == done.len());
                        assert(assoc_keys(envs).take(n - 1).len() == n - 1);
                        if assoc_has(done, name) {
                            let j = assoc_index(done, name);
                            assert(assoc_keys(done)[j] == name);
                            assert(assoc_keys(envs)[j] == envs[j].0);
                            assert(assoc_keys(envs).take(n - 1)[j] == envs[j].0);
                        }
                        lemma_assoc_put(done, name, props);
                        assert(assoc_keys(assoc_put(done, name, props)) =~= assoc_keys(envs).take(n));
                    },
                    Err(_) => {},
                }
            },
            Err(_) => {},
        }
    }
}

/// The third pass keeps the environments where they are.
pub proof fn lemma_interpolate_all(envs: Envs, n: int)
    requires
        0 <= n <= envs.len(),
    ensures
        interpolate_all(envs, n).len() == envs.len(),
        assoc_keys(interpolate_all(envs, n)) == assoc_keys(envs),
        forall|j: int| n <= j < envs.len() ==> interpolate_all(envs, n)[j] == envs[j],
    decreases n,
{
    if n > 0 {
        lemma_interpolate_all(envs, n - 1);
        assert(assoc_keys(interpolate_all(envs, n)) =~= assoc_keys(interpolate_all(envs, n - 1)));
    }
}

/// What parsing gave: the environments' views, or the error's text.
pub open spec fn config_view(r: Result<PlatformioConfig, String>) -> Result<
    Seq<EnvironmentView>,
    Seq<char>,
> {
    match r {
        Ok(config) => Ok(environment_views(config.environments@)),
        Err(e) => Err(e@),
    }
}

fn resolve_environments(raw: &StringMap<StringMap<String>>) -> (r: Result<
    StringMap<StringMap<String>>,
    String,
>)
    requires
        envs_wf(*raw),
    ensures
        match r {
            Ok(done) => envs_wf(done) && resolve_all(
                envs_view(*raw),
                envs_view(*raw).len() as int,
            ) == Ok::<Envs, Seq<char>>(envs_view(done)),
            Err(e) => resolve_all(envs_view(*raw), envs_view(*raw).len() as int) == Err::<
                Envs,
                Seq<char>,
            >(e@),
        },
{
    let ghost envs = envs_view(*raw);
    let mut done: StringMap<StringMap<String>> = StringMap::new();
    let mut i: usize = 0;
    assert(envs_view(done) =~= Seq::empty());
    while i < raw.len()
        invariant
            i <= raw.listing().len(),
            envs == envs_view(*raw),
            envs_wf(*raw),
            envs_wf(done),
            resolve_all(envs, i as int) == Ok::<Envs, Seq<char>>(envs_view(done)),
        decreases raw.listing().len() - i,
    {
        let name = raw.key_at(i);
        assert(envs[i as int].0 == name@);
        match resolve_extends(raw, name.as_str()) {
            Ok(props) => {
                put_env(&mut done, name.clone(), props);
            },
            Err(e) => {
                proof {
                    lemma_resolve_fails(envs, i as int + 1, envs.len() as int);
                }
                return Err(e);
            },
        }
        i += 1;
    }
    Ok(done)
}

/// A pass that has failed stays failed.
pub proof fn lemma_resolve_fails(envs: Envs, n: int, m: int)
    requires
        0 <= n <= m,
        resolve_all(envs, n) is Err,
    ensures
        resolve_all(envs, m) == resolve_all(envs, n),
    decreases m - n,
{
    if n < m {
        lemma_resolve_fails(envs, n, m - 1);
    }
}

fn interpolate_environments(done: &mut StringMap<StringMap<String>>)
    requires
        envs_wf(*old(done)),
    ensures
        envs_wf(*final(done)),
        envs_view(*final(done)) == interpolate_all(
            envs_view(*old(done)),
            envs_view(*old(done)).len() as int,
        ),
{
    let ghost start = envs_view(*done);
    let names = done.keys();
    let n = names.len();
    proof {
        done.lemma_listing();
        lemma_assoc_mapped(done.listing(), props_fn(), Seq::empty());
        assert(views(names@) =~= assoc_keys(start));
    }
    let mut i: usize = 0;
    while i < n
        invariant
            i <= n,
            n == names@.len(),
            n == start.len(),
            start == envs_view(*old(done)),
            views(names@) == assoc_keys(start),
            envs_wf(*done),
            envs_view(*done) == interpolate_all(start, i as int),
        decreases n - i,
    {
        let ghost before = envs_view(*done);
        proof {
            lemma_interpolate_all(start, i as int);
            done.lemma_listing();
            lemma_assoc_mapped(done.listing(), props_fn(), names@[i as int]@);
            assert(assoc_keys(before)[i as int] == before[i as int].0);
            assert(assoc_keys(start)[i as int] == views(names@)[i as int]);
            lemma_assoc_at(before, i as int);
        }
        let name = names[i].as_str();
        let mut props = match env(done, name) {
            Some(props) => copy_props(props),
            None => StringMap::new(),
        };
        assert(props_view(props) == before[i as int].1);
        resolve_interpolation(&mut props, done);
        put_env(done, names[i].clone(), props);
        i += 1;
    }
}

fn build_environments(raw: &StringMap<StringMap<String>>, done: &StringMap<StringMap<String>>) -> (r:
    Vec<DiscoveredEnvironment>)
    requires
        envs_wf(*raw),
        envs_wf(*done),
        assoc_keys(envs_view(*done)) == assoc_keys(envs_view(*raw)),
    ensures
        environment_views(r@) == environments_of(envs_view(*raw), envs_view(*done)),
{
    let ghost raw_view = envs_view(*raw);
    let ghost done_view = envs_view(*done);
    let mut environments: Vec<DiscoveredEnvironment> = Vec::new();
    let n = raw.len();
    let mut i: usize = 0;
    proof {
        raw.lemma_listing();
        done.lemma_listing();
        lemma_assoc_mapped(raw.listing(), props_fn(), Seq::empty());
        lemma_assoc_mapped(done.listing(), props_fn(), Seq::empty());
        assert(assoc_keys(done_view).len() == done_view.len());
        assert(assoc_keys(raw_view).len() == raw_view.len());
    }
    while i < n
        invariant
            i <= n,
            n == raw.listing().len(),
            n == raw.order().len(),
            n == raw_view.len(),
            n == done_view.len(),
            raw_view == envs_view(*raw),
            done_view == envs_view(*done),
            envs_wf(*raw),
            envs_wf(*done),
            assoc_distinct(raw_view),
            assoc_distinct(done_view),
            assoc_keys(done_view) == assoc_keys(raw_view),
            environments@.len() == i,
            forall|k: int|
                0 <= k < i ==> (#[trigger] environments@[k])@ == environment_of(
                    raw_view[k].0,
                    Some(raw_view[k].1),
                    done_view[k].1,
                ),
        decreases n - i,
    {
        let name = raw.key_at(i);
        proof {
            assert(raw_view[i as int].0 == name@);
            assert(assoc_keys(done_view)[i as int] == done_view[i as int].0);
            assert(assoc_keys(raw_view)[i as int] == raw_view[i as int].0);
            lemma_assoc_at(raw_view, i as int);
            lemma_assoc_at(done_view, i as int);
        }
        let own = env(raw, name.as_str());
        let built = match env(done, name.as_str()) {
            Some(props) => environment(name.as_str(), own, props),
            None => {
                let empty: StringMap<String> = StringMap::new();
                environment(name.as_str(), own, &empty)
            },
        };
        environments.push(built);
        i += 1;
    }
    assert(environment_views(environments@) =~= environments_of(raw_view, done_view));
    environments
}

/// Builds the environments that the parsed sections declare.
pub fn parse_sections(sections: &IniSections) -> (r: Result<PlatformioConfig, String>)
    ensures
        config_view(r) == config_of(sections_view(sections@)),
{
    let raw = collect_environments(sections);
    let mut done = match resolve_environments(&raw) {
        Ok(done) => done,
        Err(e) => {
            return Err(e);
        },
    };
    proof {
        raw.lemma_listing();
        lemma_assoc_mapped(raw.listing(), props_fn(), Seq::empty());
        lemma_resolve_all(envs_view(raw), envs_view(raw).len() as int);
        assert(assoc_keys(envs_view(raw)).take(envs_view(raw).len() as int) =~= assoc_keys(
            envs_view(raw),
        ));
        lemma_interpolate_all(envs_view(done), envs_view(done).len() as int);
    }
    interpolate_environments(&mut done);
    let environments = build_environments(&raw, &done);
    Ok(PlatformioConfig { environments })
}

/// The sections that `configparser::ini::Ini::new().read` finds in `text`, by
/// their names, each with its keys and what the line of the key gave as value;
/// or the crate's error.
pub uninterp spec fn parsed_ini(text: Seq<char>) -> Result<
    Map<Seq<char>, Map<Seq<char>, Option<Seq<char>>>>,
    Seq<char>,
>;

/// Takes the keys of a section to the map they stand for.
pub open spec fn entries_map_fn() -> spec_fn(Seq<(Seq<char>, Option<Seq<char>>)>) -> Map<
    Seq<char>,
    Option<Seq<char>>,
> {
    |entries: Seq<(Seq<char>, Option<Seq<char>>)>| assoc_map(entries)
}

/// `sections` lists what `map` holds: each section once, and in it each key once.
pub open spec fn lists_ini(
    sections: Seq<(String, IniEntries)>,
    map: Map<Seq<char>, Map<Seq<char>, Option<Seq<char>>>>,
) -> bool {
    let listed = sections_view(sections);
    &&& assoc_distinct(listed)
    &&& forall|i: int| 0 <= i < listed.len() ==> assoc_distinct((#[trigger] listed[i]).1)
    &&& assoc_map(assoc_mapped(listed, entries_map_fn())) == map
}

/// Parses `text` with `configparser::ini::Ini::new().read`, the crate's default
/// reader, and lists the map it returns: the sections, and in each the keys, in
/// the order in which the map hands them out, which is no particular one.
#[verifier::external_body]
fn read_ini(text: &str) -> (r: Result<IniSections, String>)
    ensures
        match r {
            Ok(sections) => parsed_ini(text@) is Ok && lists_ini(sections@, parsed_ini(text@)->Ok_0),
            Err(why) => parsed_ini(text@) == Err::<
                Map<Seq<char>, Map<Seq<char>, Option<Seq<char>>>>,
                Seq<char>,
            >(why@),
        },
{
    let map = configparser::ini::Ini::new().read(text.to_string())?;
    Ok(map.into_iter().map(|(name, keys)| (name, keys.into_iter().collect())).collect())
}

/// What is said of a text that cannot be parsed: the parser's complaint `why`, in
/// the words in which `configparser` reports a file at `path` that it could not
/// load.
pub open spec fn load_error(path: Seq<char>, why: Seq<char>) -> Seq<char> {
    "Failed to load platformio.ini: couldn't read "@ + path + ": "@ + why
}

/// Parses the text of a `platformio.ini`, with support for `extends` and
/// variable interpolation. `path` is where the text was read, for the message
/// of a text that cannot be parsed.
///
/// The parser lists sections and keys in no particular order, and the order
/// decides in which order the environments come out and, where references
/// run in circles, what they are replaced by. What is returned is what
/// `config_of` says for one listing of what the parser found.
pub fn parse_platformio_ini(path: &str, text: &str) -> (r: Result<PlatformioConfig, String>)
    ensures
        match parsed_ini(text@) {
            Err(why) => config_view(r) == Err::<Seq<EnvironmentView>, Seq<char>>(
                load_error(path@, why),
            ),
            Ok(map) => exists|sections: Seq<(String, IniEntries)>|
                lists_ini(sections, map) && config_view(r) == config_of(
                    #[trigger] sections_view(sections),
                ),
        },
{
    match read_ini(text) {
        Err(why) => {
            let mut message = concat3(
                "Failed to load platformio.ini: couldn't read ",
                path,
                ": ",
            );
            message.append(why.as_str());
            Err(message)
        },
        Ok(sections) => parse_sections(&sections),
    }
}

} // verus!
