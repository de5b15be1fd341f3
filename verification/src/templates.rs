//! A second, flat template list: units named by one source file and one
//! destination directory, with an optional mode that resolves a field's
//! replacement through an environment snapshot.

use vstd::prelude::*;

use crate::json::JsonValue;
use crate::json::json_of;
use crate::json::obj_get;
use crate::json::obj_lookup;
use crate::json::parse_json_raw;
use crate::evaluator::ManifestError;
use crate::evaluator::jobs_view;
use crate::subst::apply_pairs;
use crate::subst::lemma_apply_step;
use crate::subst::pattern_string;
use crate::subst::replace_all_str;
use crate::subst::str_eq;
use crate::template::JobView;
use crate::template::RenderJob;
use crate::template::join_path;
use crate::template::join_path_str;
use crate::template::path_dir;
use crate::template::path_name;
use crate::template::split_path;

verus! {

/// Pairs of texts, seen as pairs of character sequences.
pub open spec fn str_pairs_view(s: Seq<(String, String)>) -> Seq<(Seq<char>, Seq<char>)> {
    s.map_values(|p: (String, String)| (p.0@, p.1@))
}

/// The value under the first snapshot entry carrying `name`, where the
/// snapshot holds one.
pub open spec fn env_lookup(env: Seq<(Seq<char>, Seq<char>)>, name: Seq<char>) -> Option<
    Seq<char>,
>
    decreases env.len(),
{
    if env.len() == 0 {
        None
    } else if env[0].0 == name {
        Some(env[0].1)
    } else {
        env_lookup(env.drop_first(), name)
    }
}

/// A field's replacement under the environment mode: the snapshot value
/// whose name equals the field's value, else the field's value itself.
pub open spec fn resolved_value(env: Seq<(Seq<char>, Seq<char>)>, value: Seq<char>) -> Seq<
    char,
> {
    match env_lookup(env, value) {
        Some(x) => x,
        None => value,
    }
}

/// The (name, replacement) pairs a unit applies: values pass through as they
/// stand, or go through the environment snapshot where the unit asks for it.
pub open spec fn resolved_pairs(
    fields: Seq<(Seq<char>, Seq<char>)>,
    env: Seq<(Seq<char>, Seq<char>)>,
    use_env: bool,
) -> Seq<(Seq<char>, Seq<char>)> {
    Seq::new(
        fields.len(),
        |i: int|
            (
                fields[i].0,
                if use_env {
                    resolved_value(env, fields[i].1)
                } else {
                    fields[i].1
                },
            ),
    )
}

/// One render unit: a source file name, a destination directory, and the
/// environment-resolution mode.
pub struct Template {
    src: String,
    dest: String,
    eval_env: bool,
}

/// The mathematical content of a unit.
#[verifier::ext_equal]
pub struct UnitView {
    pub src: Seq<char>,
    pub dest: Seq<char>,
    pub eval_env: bool,
}

impl View for Template {
    type V = UnitView;

    closed spec fn view(&self) -> UnitView {
        UnitView { src: self.src@, dest: self.dest@, eval_env: self.eval_env }
    }
}

/// The job a unit renders to: its source under `parent`, its output under
/// its own destination directory keeping the source file name, and the text
/// after the cumulative pass with resolved replacements.
pub open spec fn entry_job(
    t: UnitView,
    parent: Seq<char>,
    fields: Seq<(Seq<char>, Seq<char>)>,
    env: Seq<(Seq<char>, Seq<char>)>,
    content: Seq<char>,
) -> JobView {
    JobView {
        source_path: join_path(parent, t.src),
        dest_dir: t.dest,
        dest_path: join_path(t.dest, t.src),
        text: apply_pairs(content, resolved_pairs(fields, env, t.eval_env)),
    }
}

/// The snapshot value whose name equals `value`, else `value` itself.
fn resolved_for(env: &[(String, String)], value: &String) -> (r: String)
    ensures
        r@ == resolved_value(str_pairs_view(env@), value@),
{
    let ghost ev = str_pairs_view(env@);
    let n = env.len();
    let mut i: usize = 0;
    proof {
        assert(ev.skip(0) =~= ev);
    }
    while i < n
        invariant
            n == env@.len(),
            0 <= i <= n,
            ev == str_pairs_view(env@),
            env_lookup(ev, value@) == env_lookup(ev.skip(i as int), value@),
        decreases n - i,
    {
        proof {
            assert(ev.skip(i as int)[0] == ev[i as int]);
            assert(ev.skip(i as int).drop_first() =~= ev.skip(i as int + 1));
        }
        if str_eq(env[i].0.as_str(), value.as_str()) {
            return env[i].1.clone();
        }
        i += 1;
    }
    proof {
        assert(ev.skip(n as int) =~= Seq::<(Seq<char>, Seq<char>)>::empty());
    }
    value.clone()
}

impl Template {
    /// A unit rendering `name` into `dest`, without the environment mode.
    pub fn new(name: &str, dest: &str) -> (r: Self)
        ensures
            r@ == (UnitView { src: name@, dest: dest@, eval_env: false }),
    {
        Self { src: name.to_owned(), dest: dest.to_owned(), eval_env: false }
    }

    /// Renders this unit from its source text, already read from the
    /// resolved source path.
    pub fn evaluate(
        &self,
        fields: &[(String, String)],
        parent: &str,
        env: &[(String, String)],
        content: &str,
    ) -> (r: RenderJob)
        ensures
            r@ == entry_job(
                self@,
                parent@,
                str_pairs_view(fields@),
                str_pairs_view(env@),
                content@,
            ),
    {
        let ghost pairs = resolved_pairs(
            str_pairs_view(fields@),
            str_pairs_view(env@),
            self@.eval_env,
        );
        let mut text = content.to_owned();
        let n = fields.len();
        let mut i: usize = 0;
        proof {
            assert(pairs.skip(0) =~= pairs);
        }
        while i < n
            invariant
                n == fields@.len(),
                0 <= i <= n,
                pairs == resolved_pairs(
                    str_pairs_view(fields@),
                    str_pairs_view(env@),
                    self@.eval_env,
                ),
                apply_pairs(content@, pairs) == apply_pairs(text@, pairs.skip(i as int)),
            decreases n - i,
        {
            let pat = pattern_string(fields[i].0.as_str());
            let value: String = if self.eval_env {
                resolved_for(env, &fields[i].1)
            } else {
                fields[i].1.clone()
            };
            proof {
                lemma_apply_step(text@, pairs, i as int);
            }
            text = replace_all_str(text.as_str(), pat.as_str(), value.as_str());
            i += 1;
        }
        proof {
            assert(pairs.skip(n as int) =~= Seq::<(Seq<char>, Seq<char>)>::empty());
        }
        let source_path = join_path_str(parent, self.src.as_str());
        let dest_path = join_path_str(self.dest.as_str(), self.src.as_str());
        RenderJob { source_path, dest_dir: self.dest.clone(), dest_path, text }
    }
}

/// The views of a sequence of units.
pub open spec fn units_view(s: Seq<Template>) -> Seq<UnitView> {
    s.map_values(|t: Template| t@)
}

/// A flat list of units under one shared source directory.
pub struct TemplateList {
    parent: String,
    templates: Vec<Template>,
}

/// The mathematical content of a `TemplateList`.
#[verifier::ext_equal]
pub struct TemplateListView {
    pub parent: Seq<char>,
    pub templates: Seq<UnitView>,
}

impl View for TemplateList {
    type V = TemplateListView;

    closed spec fn view(&self) -> TemplateListView {
        TemplateListView { parent: self.parent@, templates: units_view(self.templates@) }
    }
}

/// A required text under `key`; any other shape is a type error.
pub open spec fn str_req(pairs: Seq<(String, JsonValue)>, key: Seq<char>) -> Option<Seq<char>> {
    match obj_lookup(pairs, key) {
        Some(JsonValue::Str(s)) => Some(s@),
        _ => None,
    }
}

/// The environment mode of a unit entry: under `eval_env` or its alias
/// `eval_as_env`, defaulting to off; any other shape is a type error.
pub open spec fn entry_mode(pairs: Seq<(String, JsonValue)>) -> Option<bool> {
    match obj_lookup(pairs, "eval_env"@) {
        Some(JsonValue::Bool(b)) => Some(b),
        Some(_) => None,
        None => match obj_lookup(pairs, "eval_as_env"@) {
            Some(JsonValue::Bool(b)) => Some(b),
            Some(_) => None,
            None => Some(false),
        },
    }
}

/// The unit a list entry describes: an object with required `src` and
/// `dest` texts and the optional environment mode.
pub open spec fn manifest_unit(v: JsonValue) -> Option<UnitView> {
    match v {
        JsonValue::Obj(pairs) => match (str_req(pairs@, "src"@), str_req(pairs@, "dest"@)) {
            (Some(src), Some(dest)) => match entry_mode(pairs@) {
                Some(eval_env) => Some(UnitView { src, dest, eval_env }),
                None => None,
            },
            _ => None,
        },
        _ => None,
    }
}

/// Whether every entry of a list is well-shaped.
pub open spec fn manifest_units_ok(items: Seq<JsonValue>) -> bool {
    forall|i: int| 0 <= i < items.len() ==> manifest_unit(#[trigger] items[i]) is Some
}

/// The units a list's entries describe, or nothing where one is ill-shaped.
pub open spec fn manifest_units(items: Seq<JsonValue>) -> Option<Seq<UnitView>> {
    if manifest_units_ok(items) {
        Some(Seq::new(items.len(), |i: int| manifest_unit(items[i]).unwrap()))
    } else {
        None
    }
}

/// The list a manifest value describes: an object with a required `parent`
/// text and a required `templates` array of unit entries.
pub open spec fn manifest_template_list(v: JsonValue) -> Option<TemplateListView> {
    match v {
        JsonValue::Obj(pairs) => match str_req(pairs@, "parent"@) {
            Some(parent) => match obj_lookup(pairs@, "templates"@) {
                Some(JsonValue::Arr(items)) => match manifest_units(items@) {
                    Some(ts) => Some(TemplateListView { parent, templates: ts }),
                    None => None,
                },
                _ => None,
            },
            None => None,
        },
        _ => None,
    }
}

fn unit_from_manifest(v: &JsonValue) -> (r: Option<Template>)
    ensures
        match r {
            Some(t) => manifest_unit(*v) == Some(t@),
            None => manifest_unit(*v) is None,
        },
{
    let pairs = match v {
        JsonValue::Obj(pairs) => pairs,
        _ => {
            return None;
        },
    };
    let src = match obj_get(pairs, "src") {
        Some(JsonValue::Str(s)) => s.clone(),
        _ => {
            return None;
        },
    };
    let dest = match obj_get(pairs, "dest") {
        Some(JsonValue::Str(s)) => s.clone(),
        _ => {
            return None;
        },
    };
    let eval_env = match obj_get(pairs, "eval_env") {
        Some(JsonValue::Bool(b)) => *b,
        Some(_) => {
            return None;
        },
        None => match obj_get(pairs, "eval_as_env") {
            Some(JsonValue::Bool(b)) => *b,
            Some(_) => {
                return None;
            },
            None => false,
        },
    };
    Some(Template { src, dest, eval_env })
}

fn units_from_list(items: &Vec<JsonValue>) -> (r: Option<Vec<Template>>)
    ensures
        match r {
            Some(ts) => manifest_units(items@) == Some(units_view(ts@)),
            None => manifest_units(items@) is None,
        },
{
    let n = items.len();
    let mut out: Vec<Template> = Vec::new();
    let mut i: usize = 0;
    while i < n
        invariant
            n == items@.len(),
            0 <= i <= n,
            out@.len() == i,
            forall|k: int| 0 <= k < i ==> manifest_unit(#[trigger] items@[k]) is Some,
            forall|k: int|
                0 <= k < i ==> out@[k]@ == manifest_unit(#[trigger] items@[k]).unwrap(),
        decreases n - i,
    {
        match unit_from_manifest(&items[i]) {
            Some(t) => {
                out.push(t);
            },
            None => {
                return None;
            },
        }
        i += 1;
    }
    proof {
        assert(manifest_units_ok(items@));
        assert(units_view(out@) =~= Seq::new(
            items@.len(),
            |k: int| manifest_unit(items@[k]).unwrap(),
        ));
    }
    Some(out)
}

/// The jobs a whole list renders to, unit by unit in order.
pub open spec fn list_jobs(
    l: TemplateListView,
    fields: Seq<(Seq<char>, Seq<char>)>,
    env: Seq<(Seq<char>, Seq<char>)>,
    contents: Seq<Seq<char>>,
) -> Seq<JobView> {
    Seq::new(
        l.templates.len(),
        |i: int| entry_job(l.templates[i], l.parent, fields, env, contents[i]),
    )
}

/// The texts of loaded contents, where every load succeeded.
pub open spec fn texts_of(s: Seq<Option<String>>) -> Seq<Seq<char>> {
    s.map_values(
        |o: Option<String>|
            match o {
                Some(c) => c@,
                None => Seq::<char>::empty(),
            },
    )
}

impl TemplateList {
    /// A list of the files discovered under `path`, handed over as their
    /// paths in discovery order: each unit's source is the file's name and
    /// its destination mirrors the file's containing directory, so
    /// rendering regenerates every file in place.
    pub fn new(path: &str, files: &[String]) -> (r: Self)
        ensures
            r@.parent == path@,
            r@.templates == Seq::new(
                files@.len(),
                |i: int|
                    UnitView {
                        src: path_name(files@[i]@),
                        dest: path_dir(files@[i]@),
                        eval_env: false,
                    },
            ),
    {
        let n = files.len();
        let mut templates: Vec<Template> = Vec::new();
        let mut i: usize = 0;
        while i < n
            invariant
                n == files@.len(),
                0 <= i <= n,
                templates@.len() == i,
                forall|k: int|
                    0 <= k < i ==> templates@[k]@ == (UnitView {
                        src: path_name(files@[k]@),
                        dest: path_dir(files@[k]@),
                        eval_env: false,
                    }),
            decreases n - i,
        {
            let (dir, name) = split_path(files[i].as_str());
            let t = Template::new(name.as_str(), dir.as_str());
            templates.push(t);
            i += 1;
        }
        let r = Self { parent: path.to_owned(), templates };
        proof {
            assert(r@.templates =~= Seq::new(
                files@.len(),
                |i: int|
                    UnitView {
                        src: path_name(files@[i]@),
                        dest: path_dir(files@[i]@),
                        eval_env: false,
                    },
            ));
        }
        r
    }

    /// The list a manifest text describes.  A malformed text is rejected
    /// with the parser's message; a well-formed text of the wrong shape is
    /// rejected as ill-structured.
    pub fn from_json(text: &str) -> (r: Result<TemplateList, ManifestError>)
        ensures
            json_of(text@) is None ==> (r matches Err(e) && e is Parse),
            json_of(text@) matches Some(v) ==> match manifest_template_list(v) {
                Some(lv) => r matches Ok(x) && x@ == lv,
                None => r matches Err(e) && e is Structure,
            },
    {
        let v = match parse_json_raw(text) {
            Ok(v) => v,
            Err(m) => {
                return Err(ManifestError::Parse(m));
            },
        };
        let pairs = match &v {
            JsonValue::Obj(pairs) => pairs,
            _ => {
                return Err(ManifestError::Structure);
            },
        };
        let parent = match obj_get(pairs, "parent") {
            Some(JsonValue::Str(s)) => s.clone(),
            _ => {
                return Err(ManifestError::Structure);
            },
        };
        let items = match obj_get(pairs, "templates") {
            Some(JsonValue::Arr(items)) => items,
            _ => {
                return Err(ManifestError::Structure);
            },
        };
        let templates = match units_from_list(items) {
            Some(ts) => ts,
            None => {
                return Err(ManifestError::Structure);
            },
        };
        Ok(TemplateList { parent, templates })
    }

    /// The shared source directory of the list.
    pub fn parent_dir(&self) -> (r: String)
        ensures
            r@ == self@.parent,
    {
        self.parent.clone()
    }

    /// The resolved source path of the unit at `i`.
    pub fn source_path_at(&self, i: usize) -> (r: String)
        requires
            i < self@.templates.len(),
        ensures
            r@ == join_path(self@.parent, self@.templates[i as int].src),
    {
        join_path_str(self.parent.as_str(), self.templates[i].src.as_str())
    }

    /// How many units the list holds.
    pub fn template_count(&self) -> (r: usize)
        ensures
            r == self@.templates.len(),
    {
        self.templates.len()
    }

    /// Renders every unit in order from its loaded source text.  A unit
    /// whose source failed to load stops the batch there: its position comes
    /// back, and nothing after it is rendered.
    pub fn evaluate(
        &self,
        fields: &[(String, String)],
        env: &[(String, String)],
        contents: &[Option<String>],
    ) -> (r: Result<Vec<RenderJob>, usize>)
        requires
            contents@.len() == self@.templates.len(),
        ensures
            r matches Ok(jobs) ==> (forall|i: int|
                0 <= i < contents@.len() ==> contents@[i] is Some) && jobs_view(jobs@)
                == list_jobs(
                self@,
                str_pairs_view(fields@),
                str_pairs_view(env@),
                texts_of(contents@),
            ),
            r matches Err(k) ==> k < contents@.len() && contents@[k as int] is None && (forall|
                i: int,
            |
                0 <= i < k ==> contents@[i] is Some),
    {
        let n = self.templates.len();
        let mut out: Vec<RenderJob> = Vec::new();
        let mut i: usize = 0;
        while i < n
            invariant
                n == self@.templates.len(),
                contents@.len() == n,
                0 <= i <= n,
                out@.len() == i,
                forall|k: int| 0 <= k < i ==> contents@[k] is Some,
                forall|k: int|
                    0 <= k < i ==> out@[k]@ == entry_job(
                        self@.templates[k],
                        self@.parent,
                        str_pairs_view(fields@),
                        str_pairs_view(env@),
                        texts_of(contents@)[k],
                    ),
            decreases n - i,
        {
            match &contents[i] {
                None => {
                    return Err(i);
                },
                Some(content) => {
                    let job = self.templates[i].evaluate(
                        fields,
                        self.parent.as_str(),
                        env,
                        content.as_str(),
                    );
                    out.push(job);
                },
            }
            i += 1;
        }
        proof {
            assert(jobs_view(out@) =~= list_jobs(
                self@,
                str_pairs_view(fields@),
                str_pairs_view(env@),
                texts_of(contents@),
            ));
        }
        Ok(out)
    }
}

} // verus!
