//! The project model and its loader.
//!
//! A project file is a JSON document that names a top-level instance and
//! describes a recursive tree of nodes. The loader locates such a file
//! from a filesystem path, projects the parsed document onto the closed
//! schema below, stamps the originating location onto the result, and
//! surfaces reserved-name diagnostics.

use vstd::prelude::*;
use crate::json::Json;
use crate::json::JsonData;
use crate::json::json_entries_view;
use crate::json::json_view;
use crate::json::json_seq_view;
use crate::json::json_of;
use crate::json::parse_json;
use crate::json::clone_json_entries;
use crate::json::json_obj_wf;
use crate::json::lex_lt;
use crate::text::str_eq;
use crate::text::str_ends_with;
use crate::text::is_reserved_name;
use crate::text::spec_is_reserved_name;
use crate::text::spec_ends_with;
use crate::text::str_views;
use crate::paths::file_name_of;
use crate::paths::strip_trailing_separators;
use crate::paths::dir_of;
use crate::paths::lemma_ends_with_file_name;
use crate::paths::spec_join;
use crate::paths::parent_dir;
use crate::paths::join_path;

verus! {

/// Error returned by any function that handles projects.
#[derive(Debug, PartialEq)]
pub enum ProjectError {
    /// Reading the located project file failed; carries the offending
    /// path.
    Io { path: String, message: String },
    /// The file's content is not well-formed for the schema; carries the
    /// offending path and the structural complaint.
    Parse { path: String, message: String },
}

/// Describes an instance and its descendants in a project.
#[derive(Debug, PartialEq)]
pub struct ProjectNode {
    /// If set, defines the class of the described instance. It must be
    /// set unless `path` supplies an implicit class.
    pub class_name: Option<String>,
    /// The children of the described instance: every key of the node's
    /// JSON object that is not one of the four reserved fields, in
    /// ascending name order.
    pub children: Vec<(String, ProjectNode)>,
    /// The properties assigned to the resulting instance, still loosely
    /// typed; resolving them against a class schema happens elsewhere.
    pub properties: Vec<(String, Json)>,
    /// Whether instances found under this node that the project does not
    /// describe should be left alone (`true`) or removed (`false`). When
    /// unset, the default depends on `path`; see
    /// [`ProjectNode::effective_ignore_unknown_instances`].
    pub ignore_unknown_instances: Option<bool>,
    /// If set, the instance draws its content from this filesystem path.
    pub path: Option<String>,
}

/// The mathematical value of a `ProjectNode`.
pub struct ProjectNodeV {
    pub class_name: Option<Seq<char>>,
    pub children: Seq<(Seq<char>, ProjectNodeV)>,
    pub properties: Seq<(Seq<char>, JsonData)>,
    pub ignore_unknown_instances: Option<bool>,
    pub path: Option<Seq<char>>,
}

pub open spec fn opt_str_view(o: Option<String>) -> Option<Seq<char>> {
    match o {
        Some(s) => Some(s@),
        None => None,
    }
}

pub open spec fn node_view(n: ProjectNode) -> ProjectNodeV
    decreases n,
{
    ProjectNodeV {
        class_name: opt_str_view(n.class_name),
        children: children_view(n.children@),
        properties: json_entries_view(n.properties@),
        ignore_unknown_instances: n.ignore_unknown_instances,
        path: opt_str_view(n.path),
    }
}

pub open spec fn children_view(s: Seq<(String, ProjectNode)>) -> Seq<(Seq<char>, ProjectNodeV)>
    decreases s,
{
    Seq::new(
        s.len(),
        |i: int|
            if 0 <= i < s.len() {
                (s[i].0@, node_view(s[i].1))
            } else {
                (Seq::<char>::empty(), spec_empty_node())
            },
    )
}

/// The node an empty JSON object describes: nothing set, nothing listed.
pub open spec fn spec_empty_node() -> ProjectNodeV {
    ProjectNodeV {
        class_name: None,
        children: Seq::empty(),
        properties: Seq::empty(),
        ignore_unknown_instances: None,
        path: None,
    }
}

impl View for ProjectNode {
    type V = ProjectNodeV;

    open spec fn view(&self) -> ProjectNodeV {
        node_view(*self)
    }
}

fn clone_opt_string(o: &Option<String>) -> (r: Option<String>)
    ensures
        opt_str_view(r) == opt_str_view(*o),
{
    match o {
        Some(s) => Some(s.clone()),
        None => None,
    }
}

fn clone_children(v: &Vec<(String, ProjectNode)>) -> (r: Vec<(String, ProjectNode)>)
    ensures
        r@.len() == v@.len(),
        forall|i: int|
            0 <= i < v@.len() ==> #[trigger] r@[i].0@ == v@[i].0@ && node_view(r@[i].1)
                == node_view(v@[i].1),
    decreases v,
{
    let mut r: Vec<(String, ProjectNode)> = Vec::new();
    let mut idx: usize = 0;
    while idx < v.len()
        invariant
            idx <= v@.len(),
            r@.len() == idx as int,
            forall|i: int|
                0 <= i < idx as int ==> #[trigger] r@[i].0@ == v@[i].0@ && node_view(r@[i].1)
                    == node_view(v@[i].1),
        decreases v@.len() - idx,
    {
        let name = v[idx].0.clone();
        let child = v[idx].1.clone();
        r.push((name, child));
        idx += 1;
    }
    r
}

impl Clone for ProjectNode {
    fn clone(&self) -> (r: ProjectNode)
        ensures
            r@ == self@,
        decreases self,
    {
        let r = ProjectNode {
            class_name: clone_opt_string(&self.class_name),
            children: clone_children(&self.children),
            properties: clone_json_entries(&self.properties),
            ignore_unknown_instances: self.ignore_unknown_instances,
            path: clone_opt_string(&self.path),
        };
        proof {
            assert(children_view(r.children@) =~= children_view(self.children@));
            assert(json_entries_view(r.properties@) =~= json_entries_view(self.properties@));
        }
        r
    }
}

/// A loaded project: the top-level metadata and the root node.
#[derive(Debug, PartialEq)]
pub struct Project {
    /// The name of the top-level instance described by the project.
    pub name: String,
    /// The tree of instances described by this project. Projects always
    /// describe at least one instance.
    pub tree: ProjectNode,
    /// If specified, the preferred port for a live-sync session; absent
    /// means "use the default".
    pub serve_port: Option<u16>,
    /// If specified, the place identifiers this project may be synced
    /// into; see [`Project::accepts_place_id`].
    pub serve_place_ids: Option<Vec<u64>>,
    /// The path of the file this project was parsed from. Relative paths
    /// inside the tree are resolved against its parent directory, given
    /// by [`Project::folder_location`]. Not part of the persisted schema:
    /// the loader stamps it after parsing.
    pub file_location: String,
}

/// The mathematical value of a `Project`.
pub struct ProjectV {
    pub name: Seq<char>,
    pub tree: ProjectNodeV,
    pub serve_port: Option<u16>,
    pub serve_place_ids: Option<Seq<u64>>,
    pub file_location: Seq<char>,
}

impl View for Project {
    type V = ProjectV;

    open spec fn view(&self) -> ProjectV {
        ProjectV {
            name: self.name@,
            tree: node_view(self.tree),
            serve_port: self.serve_port,
            serve_place_ids: match self.serve_place_ids {
                Some(v) => Some(v@),
                None => None,
            },
            file_location: self.file_location@,
        }
    }
}

impl Clone for Project {
    fn clone(&self) -> (r: Project)
        ensures
            r@ == self@,
    {
        Project {
            name: self.name.clone(),
            tree: self.tree.clone(),
            serve_port: self.serve_port,
            serve_place_ids: clone_opt_ids(&self.serve_place_ids),
            file_location: self.file_location.clone(),
        }
    }
}

fn clone_opt_ids(o: &Option<Vec<u64>>) -> (r: Option<Vec<u64>>)
    ensures
        match r {
            Some(v) => *o matches Some(w) && v@ == w@,
            None => *o is None,
        },
{
    match o {
        Some(ids) => {
            let mut copy: Vec<u64> = Vec::new();
            let mut i: usize = 0;
            while i < ids.len()
                invariant
                    i <= ids@.len(),
                    copy@ == ids@.take(i as int),
                decreases ids@.len() - i,
            {
                copy.push(ids[i]);
                proof {
                    assert(copy@ =~= ids@.take(i + 1));
                }
                i += 1;
            }
            proof {
                assert(ids@.take(ids@.len() as int) =~= ids@);
            }
            Some(copy)
        },
        None => None,
    }
}

impl ProjectNode {
    /// The defaulting rule for `ignore_unknown_instances`: an explicit
    /// value always wins; when unset, a purely declarative node keeps
    /// unknown instances (`true`) and a path-bound node owns its contents
    /// and lets them be removed (`false`).
    pub fn effective_ignore_unknown_instances(&self) -> (r: bool)
        ensures
            r == spec_effective_ignore(self@),
    {
        match self.ignore_unknown_instances {
            Some(b) => b,
            None => self.path.is_none(),
        }
    }

    /// An explicit class on a path-bound node conflicts with the class
    /// the path would supply, unless it names the plain container class,
    /// which is always compatible.
    pub fn has_class_path_conflict(&self) -> (r: bool)
        ensures
            r == spec_class_path_conflict(self@),
    {
        match (&self.path, &self.class_name) {
            (Some(_), Some(c)) => !str_eq(c.as_str(), "Folder"),
            _ => false,
        }
    }
}

pub open spec fn spec_effective_ignore(n: ProjectNodeV) -> bool {
    match n.ignore_unknown_instances {
        Some(b) => b,
        None => n.path is None,
    }
}

pub open spec fn spec_class_path_conflict(n: ProjectNodeV) -> bool {
    n.path is Some && match n.class_name {
        Some(c) => c != "Folder"@,
        None => false,
    }
}

/// The reserved-name diagnostics of a node: every child name that opens
/// with `$`, anywhere in the tree, in depth-first order with a child's
/// own name before the names inside it.
pub open spec fn spec_reserved_diags(n: ProjectNodeV) -> Seq<Seq<char>>
    decreases n,
{
    spec_children_diags(n.children)
}

pub open spec fn spec_children_diags(cs: Seq<(Seq<char>, ProjectNodeV)>) -> Seq<Seq<char>>
    decreases cs,
{
    if cs.len() == 0 {
        Seq::empty()
    } else {
        spec_children_diags(cs.drop_last()) + spec_child_diags(cs.last())
    }
}

pub open spec fn spec_child_diags(c: (Seq<char>, ProjectNodeV)) -> Seq<Seq<char>>
    decreases c,
{
    (if spec_is_reserved_name(c.0) {
        seq![c.0]
    } else {
        Seq::empty()
    }) + spec_reserved_diags(c.1)
}

/// The node a JSON value describes, or nothing when the value breaks the
/// schema. Only an object describes a node; each of its entries either
/// fills one of the four reserved fields, with the value type that field
/// asks for, or names a child, whose value must describe a node in turn.
/// A node that sets neither `$className` nor `$path` resolves no class at
/// all and is invalid.
pub open spec fn spec_node_of(d: JsonData) -> Option<ProjectNodeV>
    decreases d,
{
    match d {
        JsonData::Obj(entries) => match spec_node_of_entries(entries) {
            Some(n) => if n.class_name is None && n.path is None {
                None
            } else {
                Some(n)
            },
            None => None,
        },
        _ => None,
    }
}

pub open spec fn spec_node_of_entries(entries: Seq<(Seq<char>, JsonData)>) -> Option<
    ProjectNodeV,
>
    decreases entries,
{
    if entries.len() == 0 {
        Some(spec_empty_node())
    } else {
        match spec_node_of_entries(entries.drop_last()) {
            None => None,
            Some(n) => {
                let key = entries.last().0;
                let value = entries.last().1;
                if key == "$className"@ {
                    match value {
                        JsonData::Str(s) => Some(ProjectNodeV { class_name: Some(s), ..n }),
                        _ => None,
                    }
                } else if key == "$path"@ {
                    match value {
                        JsonData::Str(s) => Some(ProjectNodeV { path: Some(s), ..n }),
                        _ => None,
                    }
                } else if key == "$properties"@ {
                    match value {
                        JsonData::Obj(props) => Some(ProjectNodeV { properties: props, ..n }),
                        _ => None,
                    }
                } else if key == "$ignoreUnknownInstances"@ {
                    match value {
                        JsonData::Bool(b) => Some(
                            ProjectNodeV { ignore_unknown_instances: Some(b), ..n },
                        ),
                        _ => None,
                    }
                } else {
                    match spec_node_of(value) {
                        Some(child) => Some(
                            ProjectNodeV { children: n.children.push((key, child)), ..n },
                        ),
                        None => None,
                    }
                }
            },
        }
    }
}

/// A port number: an integral value that fits in sixteen bits.
pub open spec fn spec_port_of(d: JsonData) -> Option<u16> {
    match d {
        JsonData::Int(i) => if 0 <= i <= 65535 {
            Some(i as u16)
        } else {
            None
        },
        _ => None,
    }
}

/// A place identifier: an unsigned integral value.
pub open spec fn spec_place_id_of(d: JsonData) -> Option<u64> {
    match d {
        JsonData::Int(i) => if 0 <= i <= u64::MAX {
            Some(i as u64)
        } else {
            None
        },
        _ => None,
    }
}

pub open spec fn spec_place_ids_of(d: JsonData) -> Option<Seq<u64>> {
    match d {
        JsonData::Arr(elems) => spec_place_id_seq_of(elems),
        _ => None,
    }
}

pub open spec fn spec_place_id_seq_of(elems: Seq<JsonData>) -> Option<Seq<u64>>
    decreases elems,
{
    if elems.len() == 0 {
        Some(Seq::empty())
    } else {
        match (spec_place_id_seq_of(elems.drop_last()), spec_place_id_of(elems.last())) {
            (Some(s), Some(u)) => Some(s.push(u)),
            _ => None,
        }
    }
}

/// The top-level fields gathered while walking the document's entries.
pub struct PartialProjectV {
    pub name: Option<Seq<char>>,
    pub tree: Option<ProjectNodeV>,
    pub serve_port: Option<u16>,
    pub serve_place_ids: Option<Seq<u64>>,
}

/// The top level is a closed schema: every entry must be one of the four
/// recognized fields; any other key is a schema error.
pub open spec fn spec_top_entries(entries: Seq<(Seq<char>, JsonData)>) -> Option<
    PartialProjectV,
>
    decreases entries,
{
    if entries.len() == 0 {
        Some(
            PartialProjectV {
                name: None,
                tree: None,
                serve_port: None,
                serve_place_ids: None,
            },
        )
    } else {
        match spec_top_entries(entries.drop_last()) {
            None => None,
            Some(acc) => {
                let key = entries.last().0;
                let value = entries.last().1;
                if key == "name"@ {
                    match value {
                        JsonData::Str(s) => Some(PartialProjectV { name: Some(s), ..acc }),
                        _ => None,
                    }
                } else if key == "tree"@ {
                    match spec_node_of(value) {
                        Some(t) => Some(PartialProjectV { tree: Some(t), ..acc }),
                        None => None,
                    }
                } else if key == "servePort"@ {
                    match spec_port_of(value) {
                        Some(p) => Some(PartialProjectV { serve_port: Some(p), ..acc }),
                        None => None,
                    }
                } else if key == "servePlaceIds"@ {
                    match spec_place_ids_of(value) {
                        Some(ids) => Some(
                            PartialProjectV { serve_place_ids: Some(ids), ..acc },
                        ),
                        None => None,
                    }
                } else {
                    None
                }
            },
        }
    }
}

/// The project a JSON document describes once the given location is
/// stamped onto it, or nothing when the document breaks the schema. The
/// `name` and `tree` fields are required; the two serve settings are
/// optional.
pub open spec fn spec_project_of(d: JsonData, loc: Seq<char>) -> Option<ProjectV> {
    match d {
        JsonData::Obj(entries) => match spec_top_entries(entries) {
            Some(acc) => match (acc.name, acc.tree) {
                (Some(nm), Some(t)) => Some(
                    ProjectV {
                        name: nm,
                        tree: t,
                        serve_port: acc.serve_port,
                        serve_place_ids: acc.serve_place_ids,
                        file_location: loc,
                    },
                ),
                _ => None,
            },
            None => None,
        },
        _ => None,
    }
}

/// What loading a byte string with a given location yields: nothing when
/// the bytes are not well-formed JSON or the document breaks the schema,
/// and the described project otherwise.
pub open spec fn spec_load(bytes: Seq<u8>, loc: Seq<char>) -> Option<ProjectV> {
    match json_of(bytes) {
        Some(d) => spec_project_of(d, loc),
        None => None,
    }
}

/// Once one entry breaks the schema, the whole node does.
proof fn lemma_node_fold_none(entries: Seq<(Seq<char>, JsonData)>, k: int)
    requires
        0 <= k <= entries.len(),
        spec_node_of_entries(entries.take(k)) is None,
    ensures
        spec_node_of_entries(entries) is None,
    decreases entries.len() - k,
{
    if k == entries.len() {
        assert(entries.take(k) =~= entries);
    } else {
        assert(entries.take(k + 1).drop_last() =~= entries.take(k));
        lemma_node_fold_none(entries, k + 1);
    }
}

/// Once one entry breaks the schema, the whole document does.
proof fn lemma_top_fold_none(entries: Seq<(Seq<char>, JsonData)>, k: int)
    requires
        0 <= k <= entries.len(),
        spec_top_entries(entries.take(k)) is None,
    ensures
        spec_top_entries(entries) is None,
    decreases entries.len() - k,
{
    if k == entries.len() {
        assert(entries.take(k) =~= entries);
    } else {
        assert(entries.take(k + 1).drop_last() =~= entries.take(k));
        lemma_top_fold_none(entries, k + 1);
    }
}

impl ProjectNode {
    /// Projects one JSON value onto the node schema: reserved keys fill
    /// the four structural fields, every other key names a child. A node
    /// that ends with neither a class nor a path is rejected.
    pub fn from_json(j: &Json) -> (r: Result<ProjectNode, String>)
        ensures
            r matches Ok(n) ==> spec_node_of(j@) == Some(n@),
            r is Err ==> spec_node_of(j@) is None,
        decreases j,
    {
        match j {
            Json::Obj(entries) => {
                let mut node = ProjectNode {
                    class_name: None,
                    children: Vec::new(),
                    properties: Vec::new(),
                    ignore_unknown_instances: None,
                    path: None,
                };
                let ghost ev = json_entries_view(entries@);
                proof {
                    assert(ev.take(0) =~= Seq::<(Seq<char>, JsonData)>::empty());
                    assert(children_view(node.children@) =~= Seq::<
                        (Seq<char>, ProjectNodeV),
                    >::empty());
                    assert(json_entries_view(node.properties@) =~= Seq::<
                        (Seq<char>, JsonData),
                    >::empty());
                }
                let mut i: usize = 0;
                while i < entries.len()
                    invariant
                        i <= entries@.len(),
                        *j == Json::Obj(*entries),
                        j@ == JsonData::Obj(ev),
                        ev == json_entries_view(entries@),
                        spec_node_of_entries(ev.take(i as int)) == Some(node@),
                    decreases entries@.len() - i,
                {
                    proof {
                        assert(ev.take(i + 1).drop_last() =~= ev.take(i as int));
                        assert(ev.take(i + 1).last() == ev[i as int]);
                    }
                    let key = &entries[i].0;
                    let value = &entries[i].1;
                    if str_eq(key.as_str(), "$className") {
                        match value {
                            Json::Str(s) => {
                                node.class_name = Some(s.clone());
                            },
                            _ => {
                                proof {
                                    lemma_node_fold_none(ev, i + 1);
                                }
                                return Err("the value of $className must be a string".to_owned());
                            },
                        }
                    } else if str_eq(key.as_str(), "$path") {
                        match value {
                            Json::Str(s) => {
                                node.path = Some(s.clone());
                            },
                            _ => {
                                proof {
                                    lemma_node_fold_none(ev, i + 1);
                                }
                                return Err("the value of $path must be a string".to_owned());
                            },
                        }
                    } else if str_eq(key.as_str(), "$properties") {
                        match value {
                            Json::Obj(props) => {
                                let cloned = clone_json_entries(props);
                                proof {
                                    assert(json_entries_view(cloned@) =~= json_entries_view(
                                        props@,
                                    ));
                                }
                                node.properties = cloned;
                            },
                            _ => {
                                proof {
                                    lemma_node_fold_none(ev, i + 1);
                                }
                                return Err(
                                    "the value of $properties must be an object".to_owned(),
                                );
                            },
                        }
                    } else if str_eq(key.as_str(), "$ignoreUnknownInstances") {
                        match value {
                            Json::Bool(b) => {
                                node.ignore_unknown_instances = Some(*b);
                            },
                            _ => {
                                proof {
                                    lemma_node_fold_none(ev, i + 1);
                                }
                                return Err(
                                    "the value of $ignoreUnknownInstances must be a boolean".to_owned(),
                                );
                            },
                        }
                    } else {
                        match Self::from_json(value) {
                            Ok(child) => {
                                let ghost old_children = children_view(node.children@);
                                let ghost child_v = child@;
                                let child_name = key.clone();
                                node.children.push((child_name, child));
                                proof {
                                    assert(children_view(node.children@) =~= old_children.push(
                                        (entries@[i as int].0@, child_v),
                                    ));
                                }
                            },
                            Err(e) => {
                                proof {
                                    lemma_node_fold_none(ev, i + 1);
                                }
                                return Err(e);
                            },
                        }
                    }
                    i += 1;
                }
                proof {
                    assert(ev.take(entries@.len() as int) =~= ev);
                }
                if node.class_name.is_none() && node.path.is_none() {
                    return Err(
                        "a project node must set $className unless $path supplies a class".to_owned(),
                    );
                }
                Ok(node)
            },
            _ => Err("a project node must be a JSON object".to_owned()),
        }
    }
}

impl ProjectNode {
    /// Walks the node and every descendant depth-first and reports each
    /// child name that opens with the reserved marker `$`. Reserved names
    /// are a soft violation: the walk always runs to completion, nothing
    /// is rejected, and the tree itself is left untouched.
    pub fn validate_reserved_names(&self) -> (r: Vec<String>)
        ensures
            str_views(r@) == spec_reserved_diags(self@),
        decreases self,
    {
        let mut out: Vec<String> = Vec::new();
        let ghost cv = children_view(self.children@);
        proof {
            assert(cv.take(0) =~= Seq::<(Seq<char>, ProjectNodeV)>::empty());
            assert(str_views(out@) =~= Seq::<Seq<char>>::empty());
        }
        let mut i: usize = 0;
        while i < self.children.len()
            invariant
                i <= self.children@.len(),
                cv == children_view(self.children@),
                str_views(out@) == spec_children_diags(cv.take(i as int)),
            decreases self.children@.len() - i,
        {
            proof {
                assert(cv.take(i + 1).drop_last() =~= cv.take(i as int));
                assert(cv.take(i + 1).last() == cv[i as int]);
            }
            let ghost out_pre = out@;
            let name = &self.children[i].0;
            if is_reserved_name(name.as_str()) {
                out.push(name.clone());
            }
            let ghost out_mid = out@;
            proof {
                if spec_is_reserved_name(cv[i as int].0) {
                    assert(str_views(out_mid) =~= str_views(out_pre) + seq![cv[i as int].0]);
                } else {
                    assert(str_views(out_mid) =~= str_views(out_pre));
                }
            }
            let mut sub = self.children[i].1.validate_reserved_names();
            let ghost sub_v = sub@;
            out.append(&mut sub);
            proof {
                assert(str_views(out@) =~= str_views(out_mid) + str_views(sub_v));
                assert(str_views(sub_v) == spec_reserved_diags(cv[i as int].1));
                assert(spec_children_diags(cv.take(i + 1)) == spec_children_diags(
                    cv.take(i as int),
                ) + spec_child_diags(cv[i as int]));
                assert(str_views(out@) =~= spec_children_diags(cv.take(i + 1)));
            }
            i += 1;
        }
        proof {
            assert(cv.take(self.children@.len() as int) =~= cv);
        }
        out
    }
}

/// Once one element is not an identifier, the whole list fails.
proof fn lemma_place_id_fold_none(elems: Seq<JsonData>, k: int)
    requires
        0 <= k <= elems.len(),
        spec_place_id_seq_of(elems.take(k)) is None,
    ensures
        spec_place_id_seq_of(elems) is None,
    decreases elems.len() - k,
{
    if k == elems.len() {
        assert(elems.take(k) =~= elems);
    } else {
        assert(elems.take(k + 1).drop_last() =~= elems.take(k));
        lemma_place_id_fold_none(elems, k + 1);
    }
}

fn port_from_json(j: &Json) -> (r: Option<u16>)
    ensures
        r == spec_port_of(j@),
{
    match j {
        Json::UInt(u) => if *u <= 65535 {
            Some(*u as u16)
        } else {
            None
        },
        Json::Int(i) => if 0 <= *i && *i <= 65535 {
            Some(*i as u16)
        } else {
            None
        },
        _ => None,
    }
}

fn place_id_from_json(j: &Json) -> (r: Option<u64>)
    ensures
        r == spec_place_id_of(j@),
{
    match j {
        Json::UInt(u) => Some(*u),
        Json::Int(i) => if 0 <= *i {
            Some(*i as u64)
        } else {
            None
        },
        _ => None,
    }
}

fn place_ids_from_json(elems: &Vec<Json>) -> (r: Option<Vec<u64>>)
    ensures
        r matches Some(ids) ==> spec_place_id_seq_of(json_seq_view(elems@)) == Some(ids@),
        r is None ==> spec_place_id_seq_of(json_seq_view(elems@)) is None,
{
    let ghost jsv = json_seq_view(elems@);
    let mut ids: Vec<u64> = Vec::new();
    let mut i: usize = 0;
    while i < elems.len()
        invariant
            i <= elems@.len(),
            jsv == json_seq_view(elems@),
            spec_place_id_seq_of(jsv.take(i as int)) == Some(ids@),
        decreases elems@.len() - i,
    {
        proof {
            assert(jsv.take(i + 1).drop_last() =~= jsv.take(i as int));
            assert(jsv.take(i + 1).last() == jsv[i as int]);
        }
        match place_id_from_json(&elems[i]) {
            Some(u) => {
                ids.push(u);
            },
            None => {
                proof {
                    lemma_place_id_fold_none(jsv, i + 1);
                }
                return None;
            },
        }
        i += 1;
    }
    proof {
        assert(jsv.take(elems@.len() as int) =~= jsv);
    }
    Some(ids)
}

pub open spec fn opt_vec_view(o: Option<Vec<u64>>) -> Option<Seq<u64>> {
    match o {
        Some(v) => Some(v@),
        None => None,
    }
}

pub open spec fn opt_node_view(o: Option<ProjectNode>) -> Option<ProjectNodeV> {
    match o {
        Some(n) => Some(node_view(n)),
        None => None,
    }
}

impl Project {
    /// Projects a parsed document onto the top-level schema and stamps
    /// the given location onto the result.
    pub fn from_json(j: &Json, file_location: &str) -> (r: Result<Project, String>)
        ensures
            r matches Ok(p) ==> spec_project_of(j@, file_location@) == Some(p@),
            r is Err ==> spec_project_of(j@, file_location@) is None,
    {
        let entries = match j {
            Json::Obj(entries) => entries,
            _ => {
                return Err("a project file must hold a JSON object".to_owned());
            },
        };
        let mut name: Option<String> = None;
        let mut tree: Option<ProjectNode> = None;
        let mut serve_port: Option<u16> = None;
        let mut serve_place_ids: Option<Vec<u64>> = None;
        let ghost ev = json_entries_view(entries@);
        proof {
            assert(ev.take(0) =~= Seq::<(Seq<char>, JsonData)>::empty());
        }
        let mut i: usize = 0;
        while i < entries.len()
            invariant
                i <= entries@.len(),
                *j == Json::Obj(*entries),
                j@ == JsonData::Obj(ev),
                ev == json_entries_view(entries@),
                spec_top_entries(ev.take(i as int)) == Some(
                    PartialProjectV {
                        name: opt_str_view(name),
                        tree: opt_node_view(tree),
                        serve_port: serve_port,
                        serve_place_ids: opt_vec_view(serve_place_ids),
                    },
                ),
            decreases entries@.len() - i,
        {
            proof {
                assert(ev.take(i + 1).drop_last() =~= ev.take(i as int));
                assert(ev.take(i + 1).last() == ev[i as int]);
            }
            let key = &entries[i].0;
            let value = &entries[i].1;
            if str_eq(key.as_str(), "name") {
                match value {
                    Json::Str(s) => {
                        name = Some(s.clone());
                    },
                    _ => {
                        proof {
                            lemma_top_fold_none(ev, i + 1);
                        }
                        return Err("the value of name must be a string".to_owned());
                    },
                }
            } else if str_eq(key.as_str(), "tree") {
                match ProjectNode::from_json(value) {
                    Ok(t) => {
                        tree = Some(t);
                    },
                    Err(e) => {
                        proof {
                            lemma_top_fold_none(ev, i + 1);
                        }
                        return Err(e);
                    },
                }
            } else if str_eq(key.as_str(), "servePort") {
                match port_from_json(value) {
                    Some(p) => {
                        serve_port = Some(p);
                    },
                    None => {
                        proof {
                            lemma_top_fold_none(ev, i + 1);
                        }
                        return Err(
                            "the value of servePort must be an integer between 0 and 65535".to_owned(),
                        );
                    },
                }
            } else if str_eq(key.as_str(), "servePlaceIds") {
                let elems = match value {
                    Json::Arr(elems) => elems,
                    _ => {
                        proof {
                            lemma_top_fold_none(ev, i + 1);
                        }
                        return Err(
                            "the value of servePlaceIds must be an array of unsigned integers".to_owned(),
                        );
                    },
                };
                match place_ids_from_json(elems) {
                    Some(ids) => {
                        serve_place_ids = Some(ids);
                    },
                    None => {
                        proof {
                            lemma_top_fold_none(ev, i + 1);
                        }
                        return Err(
                            "the value of servePlaceIds must be an array of unsigned integers".to_owned(),
                        );
                    },
                }
            } else {
                proof {
                    lemma_top_fold_none(ev, i + 1);
                }
                return Err("unknown top-level field in project file".to_owned());
            }
            i += 1;
        }
        proof {
            assert(ev.take(entries@.len() as int) =~= ev);
        }
        let name = match name {
            Some(n) => n,
            None => {
                return Err("a project file must name its root instance".to_owned());
            },
        };
        let tree = match tree {
            Some(t) => t,
            None => {
                return Err("a project file must describe a tree".to_owned());
            },
        };
        Ok(
            Project {
                name,
                tree,
                serve_port,
                serve_place_ids,
                file_location: file_location.to_owned(),
            },
        )
    }

    /// Parses raw file content against the schema, stamps the given
    /// location, and runs the reserved-name validation over the whole
    /// tree; its diagnostics come back beside the project. Parse
    /// failures carry the given location as the offending path.
    pub fn load_from_slice(contents: &[u8], project_file_location: &str) -> (r: Result<
        (Project, Vec<String>),
        ProjectError,
    >)
        ensures
            r matches Ok(pd) ==> spec_load(contents@, project_file_location@) == Some(pd.0@)
                && str_views(pd.1@) == spec_reserved_diags(pd.0@.tree) && spec_node_wf(
                pd.0@.tree,
            ),
            r matches Err(e) ==> spec_load(contents@, project_file_location@) is None && (
            e matches ProjectError::Parse { path, .. } && path@ == project_file_location@),
    {
        match parse_json(contents) {
            Err(message) => Err(
                ProjectError::Parse { path: project_file_location.to_owned(), message },
            ),
            Ok(j) => match Self::from_json(&j, project_file_location) {
                Err(message) => Err(
                    ProjectError::Parse { path: project_file_location.to_owned(), message },
                ),
                Ok(project) => {
                    proof {
                        lemma_project_of_wf(j@, project_file_location@);
                    }
                    let diagnostics = project.tree.validate_reserved_names();
                    Ok((project, diagnostics))
                },
            },
        }
    }
}

/// A path names a project file purely by name: its file name ends with
/// `.project.json`.
pub open spec fn spec_is_project_file(p: Seq<char>) -> bool {
    spec_ends_with(file_name_of(p), ".project.json"@)
}

/// What one metadata probe of the filesystem found at a path.
#[derive(Debug, Clone, Copy, PartialEq, Eq, Structural)]
pub enum PathMeta {
    /// The path names a regular file.
    File,
    /// The path names a directory.
    Dir,
    /// The path does not exist, or the probe itself failed.
    Missing,
}

/// Where the project file lies for a given path, decided from the two
/// metadata probes: nothing at a missing path, the path itself when it is
/// a file named like a project file, and the default project file inside
/// it when it is a directory holding one as a regular file.
pub open spec fn spec_locate(path: Seq<char>, meta: PathMeta, child_meta: PathMeta) -> Option<
    Seq<char>,
> {
    match meta {
        PathMeta::Missing => None,
        PathMeta::File => if spec_is_project_file(path) {
            Some(path)
        } else {
            None
        },
        PathMeta::Dir => if child_meta is File {
            Some(spec_join(path, "default.project.json"@))
        } else {
            None
        },
    }
}

/// Whether a live-sync session for the given place is acceptable: with a
/// present, nonempty allow-list only its members are; an absent or empty
/// list restricts nothing.
pub open spec fn spec_accepts_place_id(p: ProjectV, id: u64) -> bool {
    match p.serve_place_ids {
        None => true,
        Some(ids) => ids.len() == 0 || ids.contains(id),
    }
}

impl Project {
    /// The file name that makes a directory a project on its own.
    pub fn project_file_name() -> (r: &'static str)
        ensures
            r@ == "default.project.json"@,
    {
        "default.project.json"
    }

    /// Tells whether the given path describes a project, purely by its
    /// name: no file contents or filesystem metadata are consulted.
    pub fn is_project_file(path: &str) -> (r: bool)
        ensures
            r == spec_is_project_file(path@),
    {
        let len = path.unicode_len();
        let mut e: usize = len;
        proof {
            assert(path@.take(len as int) =~= path@);
        }
        while e > 0 && path.get_char(e - 1) == '/'
            invariant
                e <= len,
                len == path@.len(),
                strip_trailing_separators(path@) == strip_trailing_separators(
                    path@.take(e as int),
                ),
            decreases e,
        {
            proof {
                assert(path@.take(e as int).drop_last() =~= path@.take(e as int - 1));
            }
            e -= 1;
        }
        let trimmed = path.substring_char(0, e);
        proof {
            assert(trimmed@ =~= path@.take(e as int));
            assert(strip_trailing_separators(trimmed@) == trimmed@);
            reveal_strlit(".project.json");
            assert(forall|j: int|
                0 <= j < ".project.json"@.len() ==> ".project.json"@[j] != '/');
            lemma_ends_with_file_name(path@, ".project.json"@);
        }
        str_ends_with(trimmed, ".project.json")
    }

    /// Locates the project the given path refers to, deciding from the
    /// metadata probes the caller made: `meta` describes `path` itself,
    /// `child_meta` describes `default.project.json` directly inside it
    /// and only matters when `path` is a directory. A directory whose
    /// `default.project.json` is itself a directory locates nothing, and
    /// a missing path or a failed probe locates nothing rather than
    /// raising an error.
    pub fn locate(path: &str, meta: PathMeta, child_meta: PathMeta) -> (r: Option<String>)
        ensures
            opt_str_view(r) == spec_locate(path@, meta, child_meta),
    {
        match meta {
            PathMeta::Missing => None,
            PathMeta::File => if Self::is_project_file(path) {
                Some(path.to_owned())
            } else {
                None
            },
            PathMeta::Dir => match child_meta {
                PathMeta::File => Some(join_path(path, Self::project_file_name())),
                _ => None,
            },
        }
    }

    /// The directory every relative path inside the project resolves
    /// against: the parent of the file the project was loaded from.
    pub fn folder_location(&self) -> (r: String)
        ensures
            r@ == dir_of(self@.file_location),
    {
        parent_dir(self.file_location.as_str())
    }

    /// Checks the tree for compatibility issues — children named like
    /// reserved fields — and returns the diagnostics instead of failing.
    pub fn check_compatibility(&self) -> (r: Vec<String>)
        ensures
            str_views(r@) == spec_reserved_diags(self@.tree),
    {
        self.tree.validate_reserved_names()
    }

    /// Whether a live-sync session for the given place is acceptable
    /// under this project's allow-list.
    pub fn accepts_place_id(&self, id: u64) -> (r: bool)
        ensures
            r == spec_accepts_place_id(self@, id),
    {
        match &self.serve_place_ids {
            None => true,
            Some(ids) => {
                if ids.len() == 0 {
                    return true;
                }
                let mut i: usize = 0;
                while i < ids.len()
                    invariant
                        i <= ids@.len(),
                        self.serve_place_ids == Some(*ids),
                        forall|k: int| 0 <= k < i as int ==> ids@[k] != id,
                    decreases ids@.len() - i,
                {
                    if ids[i] == id {
                        proof {
                            assert(ids@.contains(id));
                        }
                        return true;
                    }
                    i += 1;
                }
                proof {
                    assert(!ids@.contains(id));
                }
                false
            },
        }
    }
}

/// Well-formedness of a node tree: among the children of every node the
/// names strictly ascend in lexicographic order, so no two siblings
/// share a name, and the property names of every node do the same.
pub open spec fn spec_node_wf(n: ProjectNodeV) -> bool
    decreases n,
{
    &&& forall|i: int, j: int|
        0 <= i < j < n.children.len() ==> lex_lt(
            #[trigger] n.children[i].0,
            #[trigger] n.children[j].0,
        )
    &&& forall|i: int, j: int|
        0 <= i < j < n.properties.len() ==> lex_lt(
            #[trigger] n.properties[i].0,
            #[trigger] n.properties[j].0,
        )
    &&& forall|i: int| 0 <= i < n.children.len() ==> spec_node_wf(#[trigger] n.children[i].1)
}

proof fn lemma_node_entries_wf(entries: Seq<(Seq<char>, JsonData)>)
    requires
        forall|i: int, j: int|
            0 <= i < j < entries.len() ==> lex_lt(
                #[trigger] entries[i].0,
                #[trigger] entries[j].0,
            ),
        forall|i: int| 0 <= i < entries.len() ==> json_obj_wf(#[trigger] entries[i].1),
    ensures
        spec_node_of_entries(entries) matches Some(n) ==> spec_node_wf(n) && (forall|k: int|
            0 <= k < n.children.len() ==> exists|i: int|
                0 <= i < entries.len() && (#[trigger] n.children[k].0) == entries[i].0),
    decreases entries,
{
    if entries.len() == 0 {
    } else {
        let prev = entries.drop_last();
        assert(forall|i: int| 0 <= i < prev.len() ==> #[trigger] prev[i] == entries[i]);
        lemma_node_entries_wf(prev);
        match spec_node_of_entries(entries) {
            Some(n) => {
                let n0 = spec_node_of_entries(prev)->Some_0;
                let key = entries.last().0;
                let value = entries.last().1;
                if key == "$className"@ || key == "$path"@ || key == "$properties"@ || key
                    == "$ignoreUnknownInstances"@ {
                    assert(n.children == n0.children);
                    assert forall|k: int| 0 <= k < n.children.len() implies exists|i: int|
                        0 <= i < entries.len() && (#[trigger] n.children[k].0)
                            == entries[i].0 by {
                        let i = choose|i: int|
                            0 <= i < prev.len() && n.children[k].0 == prev[i].0;
                        assert(0 <= i < entries.len() && n.children[k].0 == entries[i].0);
                    }
                } else {
                    lemma_node_json_wf(value);
                    let c = spec_node_of(value)->Some_0;
                    assert(n.children == n0.children.push((key, c)));
                    let last = entries.len() - 1;
                    assert forall|k: int| 0 <= k < n.children.len() implies exists|i: int|
                        0 <= i < entries.len() && (#[trigger] n.children[k].0)
                            == entries[i].0 by {
                        if k < n.children.len() - 1 {
                            let i = choose|i: int|
                                0 <= i < prev.len() && n.children[k].0 == prev[i].0;
                            assert(0 <= i < entries.len() && n.children[k].0 == entries[i].0);
                        } else {
                            assert(n.children[k].0 == entries[last].0);
                        }
                    }
                    assert forall|a: int, b: int|
                        0 <= a < b < n.children.len() implies lex_lt(
                            n.children[a].0,
                            n.children[b].0,
                        ) by {
                        if b == n.children.len() - 1 {
                            let i = choose|i: int|
                                0 <= i < prev.len() && n.children[a].0 == prev[i].0;
                            assert(lex_lt(entries[i].0, entries[last].0));
                        }
                    }
                }
            },
            None => {},
        }
    }
}

proof fn lemma_node_json_wf(d: JsonData)
    requires
        json_obj_wf(d),
    ensures
        spec_node_of(d) matches Some(m) ==> spec_node_wf(m),
    decreases d,
{
    match d {
        JsonData::Obj(entries) => {
            lemma_node_entries_wf(entries);
        },
        _ => {},
    }
}

proof fn lemma_top_entries_wf(entries: Seq<(Seq<char>, JsonData)>)
    requires
        forall|i: int| 0 <= i < entries.len() ==> json_obj_wf(#[trigger] entries[i].1),
    ensures
        spec_top_entries(entries) matches Some(acc) ==> (acc.tree matches Some(t)
            ==> spec_node_wf(t)),
    decreases entries,
{
    if entries.len() == 0 {
    } else {
        let prev = entries.drop_last();
        assert(forall|i: int| 0 <= i < prev.len() ==> #[trigger] prev[i] == entries[i]);
        lemma_top_entries_wf(prev);
        match spec_top_entries(entries) {
            Some(acc) => {
                let key = entries.last().0;
                if key == "tree"@ {
                    lemma_node_json_wf(entries.last().1);
                }
            },
            None => {},
        }
    }
}

/// The tree of any project a well-formed document describes is well
/// formed: among the children of every node, sibling names strictly
/// ascend and so never repeat.
pub proof fn lemma_project_of_wf(d: JsonData, loc: Seq<char>)
    requires
        json_obj_wf(d),
    ensures
        spec_project_of(d, loc) matches Some(p) ==> spec_node_wf(p.tree),
{
    match d {
        JsonData::Obj(entries) => lemma_top_entries_wf(entries),
        _ => {},
    }
}

/// Loading the same content with the same location a second time yields
/// the same project value: what a load describes is a function of the
/// bytes and the location alone, so two loads agree in value and differ
/// only in identity.
pub proof fn lemma_load_deterministic(
    bytes: Seq<u8>,
    loc: Seq<char>,
    r1: Option<ProjectV>,
    r2: Option<ProjectV>,
)
    requires
        r1 == spec_load(bytes, loc),
        r2 == spec_load(bytes, loc),
    ensures
        r1 == r2,
{
}

/// The defaulting matrix for `ignoreUnknownInstances`: an explicit value
/// always wins; with no explicit value, a node without `path` defaults to
/// `true` and a node with `path` to `false`.
pub proof fn lemma_ignore_unknown_default(n: ProjectNodeV)
    ensures
        n.ignore_unknown_instances matches Some(b) ==> spec_effective_ignore(n) == b,
        n.ignore_unknown_instances is None && n.path is None ==> spec_effective_ignore(n),
        n.ignore_unknown_instances is None && n.path is Some ==> !spec_effective_ignore(n),
{
}

} // verus!


