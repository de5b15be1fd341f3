//! The template collection: manifest interpretation, shared defaults,
//! discovery hand-off, and the batch evaluation pass.

use vstd::prelude::*;

use crate::fields::Field;
use crate::fields::field_pairs;
use crate::json::JsonValue;
use crate::json::get_str_or_empty;
use crate::json::json_of;
use crate::json::obj_get;
use crate::json::obj_lookup;
use crate::json::parse_json_raw;
use crate::json::str_or_empty;
use crate::template::JobView;
use crate::template::RenderJob;
use crate::template::Template;
use crate::template::TemplateView;
use crate::template::manifest_template;
use crate::template::path_dir;
use crate::template::path_name;
use crate::template::templates_view;
use crate::template::unit_job;

verus! {

/// The views of a sequence of render jobs.
pub open spec fn jobs_view(s: Seq<RenderJob>) -> Seq<JobView> {
    s.map_values(|j: RenderJob| j@)
}

/// A collection of template units with two optional shared defaults.
pub struct Evaluator {
    default_relative_dir: String,
    default_dest_dir: String,
    templates: Vec<Template>,
}

/// The mathematical content of an `Evaluator`.
#[verifier::ext_equal]
pub struct EvaluatorView {
    pub default_relative_dir: Seq<char>,
    pub default_dest_dir: Seq<char>,
    pub templates: Seq<TemplateView>,
}

impl View for Evaluator {
    type V = EvaluatorView;

    closed spec fn view(&self) -> EvaluatorView {
        EvaluatorView {
            default_relative_dir: self.default_relative_dir@,
            default_dest_dir: self.default_dest_dir@,
            templates: templates_view(self.templates@),
        }
    }
}

/// Why a manifest was rejected: its text is not JSON, or its shape is wrong.
#[derive(Debug)]
pub enum ManifestError {
    Parse(String),
    Structure,
}

/// Whether every entry of a manifest's template list is well-shaped.
pub open spec fn manifest_templates_ok(items: Seq<JsonValue>) -> bool {
    forall|i: int| 0 <= i < items.len() ==> manifest_template(#[trigger] items[i]) is Some
}

/// The units a manifest's template list describes, entry by entry, or
/// nothing where some entry is ill-shaped.
pub open spec fn manifest_templates(items: Seq<JsonValue>) -> Option<Seq<TemplateView>> {
    if manifest_templates_ok(items) {
        Some(Seq::new(items.len(), |i: int| manifest_template(items[i]).unwrap()))
    } else {
        None
    }
}

/// A template list value must be an array of well-shaped entries.
pub open spec fn manifest_list_value(v: JsonValue) -> Option<Seq<TemplateView>> {
    match v {
        JsonValue::Arr(items) => manifest_templates(items@),
        _ => None,
    }
}

/// The template list of a manifest object: under `templates`, or under the
/// alias `files`; a manifest naming neither holds no units.
pub open spec fn manifest_list(pairs: Seq<(String, JsonValue)>) -> Option<Seq<TemplateView>> {
    match obj_lookup(pairs, "templates"@) {
        Some(v) => manifest_list_value(v),
        None => match obj_lookup(pairs, "files"@) {
            Some(v) => manifest_list_value(v),
            None => Some(Seq::empty()),
        },
    }
}

/// The collection a manifest value describes, before defaults are applied:
/// an object with two optional default directories and an optional template
/// list.
pub open spec fn manifest_eval(v: JsonValue) -> Option<EvaluatorView> {
    match v {
        JsonValue::Obj(pairs) => match (
            str_or_empty(pairs@, "default_relative_dir"@),
            str_or_empty(pairs@, "default_dest_dir"@),
        ) {
            (Some(dr), Some(dd)) => match manifest_list(pairs@) {
                Some(ts) => Some(
                    EvaluatorView {
                        default_relative_dir: dr,
                        default_dest_dir: dd,
                        templates: ts,
                    },
                ),
                None => None,
            },
            _ => None,
        },
        _ => None,
    }
}

/// The jobs a batch pass yields: each unit in collection order, units whose
/// text failed to load skipped as no-ops.
pub open spec fn eval_jobs(ts: Seq<TemplateView>, pairs: Seq<(Seq<char>, Seq<char>)>) -> Seq<
    JobView,
>
    decreases ts.len(),
{
    if ts.len() == 0 {
        Seq::empty()
    } else {
        (if ts[0].data.len() == 0 {
            Seq::<JobView>::empty()
        } else {
            seq![unit_job(ts[0], pairs)]
        }) + eval_jobs(ts.drop_first(), pairs)
    }
}

/// Law: a batch pass over units whose texts all failed to load writes
/// nothing — every unit is a no-op and the pass succeeds with no jobs.
pub proof fn lemma_unloaded_units_yield_no_jobs(
    ts: Seq<TemplateView>,
    pairs: Seq<(Seq<char>, Seq<char>)>,
)
    requires
        forall|i: int| 0 <= i < ts.len() ==> (#[trigger] ts[i]).data.len() == 0,
    ensures
        eval_jobs(ts, pairs) == Seq::<JobView>::empty(),
    decreases ts.len(),
{
    if ts.len() == 0 {
    } else {
        assert(forall|i: int| 0 <= i < ts.drop_first().len() ==> ts.drop_first()[i] == ts[i + 1]);
        lemma_unloaded_units_yield_no_jobs(ts.drop_first(), pairs);
        assert(Seq::<JobView>::empty() + Seq::<JobView>::empty() =~= Seq::<JobView>::empty());
    }
}

fn templates_from_list(items: &Vec<JsonValue>) -> (r: Option<Vec<Template>>)
    ensures
        match r {
            Some(ts) => manifest_templates(items@) == Some(templates_view(ts@)),
            None => manifest_templates(items@) is None,
        },
{
    let n = items.len();
    let mut out: Vec<Template> = Vec::new();
    let mut i: usize = 0;
    while i < n
        invariant
            n == items@.len(),
            0 <= i <= n,
            out@.len() == i,
            forall|k: int| 0 <= k < i ==> manifest_template(#[trigger] items@[k]) is Some,
            forall|k: int|
                0 <= k < i ==> out@[k]@ == manifest_template(#[trigger] items@[k]).unwrap(),
        decreases n - i,
    {
        match Template::from_manifest(&items[i]) {
            Some(t) => {
                out.push(t);
            },
            None => {
                return None;
            },
        }
        i += 1;
    }
    proof {
        assert(manifest_templates_ok(items@));
        assert(templates_view(out@) =~= Seq::new(
            items@.len(),
            |k: int| manifest_template(items@[k]).unwrap(),
        ));
    }
    Some(out)
}

impl Evaluator {
    /// A collection holding the given units, with no defaults set.
    pub fn new(templates: Vec<Template>) -> (r: Self)
        ensures
            r@ == (EvaluatorView {
                default_relative_dir: Seq::empty(),
                default_dest_dir: Seq::empty(),
                templates: templates_view(templates@),
            }),
    {
        Evaluator { default_relative_dir: String::new(), default_dest_dir: String::new(), templates }
    }

    /// The collection a directory walk discovers: one unit per file found,
    /// handed over as (path, source text) pairs in walk order.  Each unit's
    /// source directory is the file's containing directory and its
    /// destination mirrors that same directory, so rendering regenerates
    /// every file in place; no defaults are set.
    pub fn from_discovered(files: &[(String, String)]) -> (r: Self)
        ensures
            r@.default_relative_dir == Seq::<char>::empty(),
            r@.default_dest_dir == Seq::<char>::empty(),
            r@.templates == Seq::new(
                files@.len(),
                |i: int|
                    TemplateView {
                        relative_dir: path_dir(files@[i].0@),
                        file_name: path_name(files@[i].0@),
                        dest_dir: path_dir(files@[i].0@),
                        alt_dest_name: None,
                        data: files@[i].1@,
                    },
            ),
    {
        let n = files.len();
        let mut templates: Vec<Template> = Vec::new();
        let mut i: usize = 0;
        while i < n
            invariant
                n == files@.len(),
                0 <= i <= n,
                templates@.len() == i,
                forall|k: int|
                    0 <= k < i ==> templates@[k]@ == (TemplateView {
                        relative_dir: path_dir(files@[k].0@),
                        file_name: path_name(files@[k].0@),
                        dest_dir: path_dir(files@[k].0@),
                        alt_dest_name: None,
                        data: files@[k].1@,
                    }),
            decreases n - i,
        {
            let t = Template::from_discovered(files[i].0.as_str(), files[i].1.as_str());
            templates.push(t);
            i += 1;
        }
        let r = Evaluator {
            default_relative_dir: String::new(),
            default_dest_dir: String::new(),
            templates,
        };
        proof {
            assert(r@.templates =~= Seq::new(
                files@.len(),
                |i: int|
                    TemplateView {
                        relative_dir: path_dir(files@[i].0@),
                        file_name: path_name(files@[i].0@),
                        dest_dir: path_dir(files@[i].0@),
                        alt_dest_name: None,
                        data: files@[i].1@,
                    },
            ));
        }
        r
    }

    /// The collection a manifest text describes.  A malformed text is
    /// rejected with the parser's message; a well-formed text of the wrong
    /// shape is rejected as ill-structured.  Defaults are not yet applied.
    pub fn from_json(text: &str) -> (r: Result<Self, ManifestError>)
        ensures
            json_of(text@) is None ==> (r matches Err(e) && e is Parse),
            json_of(text@) matches Some(v) ==> match manifest_eval(v) {
                Some(ev) => r matches Ok(x) && x@ == ev,
                None => r matches Err(e) && e is Structure,
            },
    {
        let v = match parse_json_raw(text) {
            Ok(v) => v,
            Err(m) => {
                return Err(ManifestError::Parse(m));
            },
        };
        let pairs = match &v {
            JsonValue::Obj(pairs) => pairs,
            _ => {
                return Err(ManifestError::Structure);
            },
        };
        let default_relative_dir = match get_str_or_empty(pairs, "default_relative_dir") {
            Some(s) => s,
            None => {
                return Err(ManifestError::Structure);
            },
        };
        let default_dest_dir = match get_str_or_empty(pairs, "default_dest_dir") {
            Some(s) => s,
            None => {
                return Err(ManifestError::Structure);
            },
        };
        let listed = match obj_get(pairs, "templates") {
            Some(l) => Some(l),
            None => obj_get(pairs, "files"),
        };
        let templates: Vec<Template> = match listed {
            None => Vec::new(),
            Some(JsonValue::Arr(items)) => match templates_from_list(items) {
                Some(ts) => ts,
                None => {
                    return Err(ManifestError::Structure);
                },
            },
            Some(_) => {
                return Err(ManifestError::Structure);
            },
        };
        proof {
            assert(templates_view(Seq::<Template>::empty()) =~= Seq::<TemplateView>::empty());
        }
        Ok(Evaluator { default_relative_dir, default_dest_dir, templates })
    }

    /// How many units the collection holds.
    pub fn template_count(&self) -> (r: usize)
        ensures
            r == self@.templates.len(),
    {
        self.templates.len()
    }

    /// The directory to discover units from: set only where the manifest
    /// listed no unit and named a default source directory.
    pub fn scan_root(&self) -> (r: Option<String>)
        ensures
            match r {
                Some(d) => self@.templates.len() == 0 && self@.default_relative_dir.len() > 0
                    && d@ == self@.default_relative_dir,
                None => !(self@.templates.len() == 0 && self@.default_relative_dir.len() > 0),
            },
    {
        if self.templates.is_empty() && !self.default_relative_dir.as_str().is_empty() {
            Some(self.default_relative_dir.clone())
        } else {
            None
        }
    }

    /// Appends a discovered unit.
    pub fn push_template(&mut self, t: Template)
        ensures
            final(self)@ == (EvaluatorView {
                templates: old(self)@.templates.push(t@),
                ..old(self)@
            }),
    {
        self.templates.push(t);
        proof {
            assert(self@.templates =~= old(self)@.templates.push(t@));
            assert(self@ =~= (EvaluatorView {
                templates: old(self)@.templates.push(t@),
                ..old(self)@
            }));
        }
    }

    /// The source path the unit at `i` will read from once an empty source
    /// directory has been filled with the collection's default.
    pub fn source_path_at(&self, i: usize) -> (r: String)
        requires
            i < self@.templates.len(),
        ensures
            r@ == crate::template::join_path(
                if self@.templates[i as int].relative_dir.len() == 0 {
                    self@.default_relative_dir
                } else {
                    self@.templates[i as int].relative_dir
                },
                self@.templates[i as int].file_name,
            ),
    {
        self.templates[i].source_path_with_default(self.default_relative_dir.as_str())
    }

    /// Applies the shared defaults to the unit at `i` — directories the unit
    /// already names win — and stores its re-read source text.
    pub fn resolve_at(&mut self, i: usize, data: &str)
        requires
            i < old(self)@.templates.len(),
        ensures
            final(self)@ == (EvaluatorView {
                templates: old(self)@.templates.update(
                    i as int,
                    TemplateView {
                        relative_dir: if old(self)@.templates[i as int].relative_dir.len() == 0 {
                            old(self)@.default_relative_dir
                        } else {
                            old(self)@.templates[i as int].relative_dir
                        },
                        dest_dir: if old(self)@.templates[i as int].dest_dir.len() == 0 {
                            old(self)@.default_dest_dir
                        } else {
                            old(self)@.templates[i as int].dest_dir
                        },
                        data: data@,
                        ..old(self)@.templates[i as int]
                    },
                ),
                ..old(self)@
            }),
    {
        let mut t = self.templates.remove(i);
        t.set_relative_dir(self.default_relative_dir.as_str(), data);
        t.set_dest_dir(self.default_dest_dir.as_str());
        self.templates.insert(i, t);
        proof {
            assert(self@.templates =~= old(self)@.templates.update(
                i as int,
                TemplateView {
                    relative_dir: if old(self)@.templates[i as int].relative_dir.len() == 0 {
                        old(self)@.default_relative_dir
                    } else {
                        old(self)@.templates[i as int].relative_dir
                    },
                    dest_dir: if old(self)@.templates[i as int].dest_dir.len() == 0 {
                        old(self)@.default_dest_dir
                    } else {
                        old(self)@.templates[i as int].dest_dir
                    },
                    data: data@,
                    ..old(self)@.templates[i as int]
                },
            ));
            assert(self@ =~= (EvaluatorView { templates: self@.templates, ..old(self)@ }));
        }
    }

    /// Renders every unit in collection order: units whose text failed to
    /// load are skipped as no-ops, every other unit yields its job.
    pub fn evaluate(&self, fields: &[Field]) -> (r: Vec<RenderJob>)
        ensures
            jobs_view(r@) == eval_jobs(self@.templates, field_pairs(fields@)),
    {
        let ghost ts = self@.templates;
        let ghost pairs = field_pairs(fields@);
        let mut out: Vec<RenderJob> = Vec::new();
        let n = self.templates.len();
        let mut i: usize = 0;
        proof {
            assert(ts.skip(0) =~= ts);
            assert(jobs_view(out@) =~= Seq::<JobView>::empty());
        }
        while i < n
            invariant
                n == ts.len(),
                0 <= i <= n,
                ts == self@.templates,
                pairs == field_pairs(fields@),
                jobs_view(out@) + eval_jobs(ts.skip(i as int), pairs) == eval_jobs(ts, pairs),
            decreases n - i,
        {
            proof {
                assert(ts.skip(i as int)[0] == ts[i as int]);
                assert(ts.skip(i as int).drop_first() =~= ts.skip(i as int + 1));
            }
            match self.templates[i].evaluate(fields) {
                Some(job) => {
                    out.push(job);
                },
                None => {},
            }
            proof {
                assert(jobs_view(out@) + eval_jobs(ts.skip(i as int + 1), pairs) =~= eval_jobs(
                    ts,
                    pairs,
                ));
            }
            i += 1;
        }
        proof {
            assert(ts.skip(n as int) =~= Seq::<TemplateView>::empty());
            assert(jobs_view(out@) + Seq::<JobView>::empty() =~= jobs_view(out@));
        }
        out
    }
}

} // verus!
