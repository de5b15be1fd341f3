//! One render job: a source file's text, the fields applied to it, and where
//! the result goes.

use vstd::prelude::*;

use crate::fields::Field;
use crate::fields::field_pairs;
use crate::json::JsonValue;
use crate::json::get_str_or_empty;
use crate::json::obj_get;
use crate::json::obj_lookup;
use crate::json::str_or_empty;
use crate::subst::apply_pairs;
use crate::subst::lemma_apply_step;
use crate::subst::lemma_no_placeholder_unchanged;
use crate::subst::lemma_single_field_round_trip;
use crate::subst::occurs;
use crate::subst::pattern_of;
use crate::subst::pattern_string;
use crate::subst::replace_all_str;

verus! {

/// A directory and a file name joined with one slash.
pub open spec fn join_path(dir: Seq<char>, name: Seq<char>) -> Seq<char> {
    dir + seq!['/'] + name
}

/// The path `dir/name`.
pub fn join_path_str(dir: &str, name: &str) -> (r: String)
    ensures
        r@ == join_path(dir@, name@),
{
    proof {
        reveal_strlit("/");
    }
    let mut p = dir.to_owned();
    p.append("/");
    p.append(name);
    proof {
        assert(p@ =~= join_path(dir@, name@));
    }
    p
}

/// The position of the last slash of `s`, or a negative value where `s`
/// holds none.
pub open spec fn last_slash_index(s: Seq<char>) -> int
    decreases s.len(),
{
    if s.len() == 0 {
        -1
    } else if s[s.len() - 1] == '/' {
        s.len() - 1
    } else {
        last_slash_index(s.drop_last())
    }
}

/// The text before the last slash; empty where there is none.
pub open spec fn path_dir(path: Seq<char>) -> Seq<char> {
    let j = last_slash_index(path);
    if j < 0 {
        Seq::empty()
    } else {
        path.subrange(0, j)
    }
}

/// The text after the last slash; the whole path where there is none.
pub open spec fn path_name(path: Seq<char>) -> Seq<char> {
    let j = last_slash_index(path);
    if j < 0 {
        path
    } else {
        path.subrange(j + 1, path.len() as int)
    }
}

proof fn lemma_last_slash_at(s: Seq<char>, j: int)
    requires
        0 <= j < s.len(),
        s[j] == '/',
        forall|k: int| j < k < s.len() ==> s[k] != '/',
    ensures
        last_slash_index(s) == j,
    decreases s.len(),
{
    if j == s.len() - 1 {
    } else {
        assert(s[s.len() - 1] != '/');
        assert(forall|k: int| j < k < s.drop_last().len() ==> s.drop_last()[k] != '/');
        lemma_last_slash_at(s.drop_last(), j);
    }
}

proof fn lemma_no_slash(s: Seq<char>)
    requires
        forall|k: int| 0 <= k < s.len() ==> s[k] != '/',
    ensures
        last_slash_index(s) == -1,
    decreases s.len(),
{
    if s.len() > 0 {
        lemma_no_slash(s.drop_last());
    }
}

/// Splits a path at its last slash into the containing directory and the
/// file name.
pub fn split_path(path: &str) -> (r: (String, String))
    ensures
        r.0@ == path_dir(path@),
        r.1@ == path_name(path@),
{
    let n = path.unicode_len();
    let mut i: usize = n;
    while i > 0
        invariant
            n == path@.len(),
            0 <= i <= n,
            forall|k: int| i <= k < n ==> path@[k] != '/',
        decreases i,
    {
        if path.get_char(i - 1) == '/' {
            proof {
                lemma_last_slash_at(path@, i - 1);
            }
            let dir = path.substring_char(0, i - 1);
            let name = path.substring_char(i, n);
            return (dir.to_owned(), name.to_owned());
        }
        i -= 1;
    }
    proof {
        lemma_no_slash(path@);
    }
    (String::new(), path.to_owned())
}

/// A rendered unit, ready to be written: the resolved source path, the
/// destination directory and file path, and the substituted text.
pub struct RenderJob {
    pub source_path: String,
    pub dest_dir: String,
    pub dest_path: String,
    pub text: String,
}

/// The mathematical content of a `RenderJob`.
#[verifier::ext_equal]
pub struct JobView {
    pub source_path: Seq<char>,
    pub dest_dir: Seq<char>,
    pub dest_path: Seq<char>,
    pub text: Seq<char>,
}

impl View for RenderJob {
    type V = JobView;

    open spec fn view(&self) -> JobView {
        JobView {
            source_path: self.source_path@,
            dest_dir: self.dest_dir@,
            dest_path: self.dest_path@,
            text: self.text@,
        }
    }
}

/// One template unit: a source location, a destination, an optional renamed
/// output, and the loaded source text.
pub struct Template {
    relative_dir: String,
    file_name: String,
    dest_dir: String,
    alt_dest_name: Option<String>,
    data: String,
}

/// The mathematical content of a `Template`.
#[verifier::ext_equal]
pub struct TemplateView {
    pub relative_dir: Seq<char>,
    pub file_name: Seq<char>,
    pub dest_dir: Seq<char>,
    pub alt_dest_name: Option<Seq<char>>,
    pub data: Seq<char>,
}

impl View for Template {
    type V = TemplateView;

    closed spec fn view(&self) -> TemplateView {
        TemplateView {
            relative_dir: self.relative_dir@,
            file_name: self.file_name@,
            dest_dir: self.dest_dir@,
            alt_dest_name: match self.alt_dest_name {
                Some(n) => Some(n@),
                None => None,
            },
            data: self.data@,
        }
    }
}

/// The output file name of a unit: the renamed output where one is set, else
/// the source file name.
pub open spec fn dest_name(t: TemplateView) -> Seq<char> {
    match t.alt_dest_name {
        Some(n) => n,
        None => t.file_name,
    }
}

/// The job a unit with loaded text renders to, under the given field pairs.
pub open spec fn unit_job(t: TemplateView, pairs: Seq<(Seq<char>, Seq<char>)>) -> JobView {
    JobView {
        source_path: join_path(t.relative_dir, t.file_name),
        dest_dir: t.dest_dir,
        dest_path: join_path(t.dest_dir, dest_name(t)),
        text: apply_pairs(t.data, pairs),
    }
}

impl Template {
    /// A unit for `relative_dir/file_name`, with the source text already
    /// read; a missing destination directory is left empty until defaults
    /// are applied.
    pub fn new(file_name: &str, relative_dir: &str, dest_dir: Option<&str>, data: &str) -> (r:
        Self)
        ensures
            r@.file_name == file_name@,
            r@.relative_dir == relative_dir@,
            r@.dest_dir == (match dest_dir {
                Some(d) => d@,
                None => Seq::<char>::empty(),
            }),
            r@.alt_dest_name is None,
            r@.data == data@,
    {
        let dest = match dest_dir {
            Some(d) => d.to_owned(),
            None => String::new(),
        };
        Self {
            relative_dir: relative_dir.to_owned(),
            file_name: file_name.to_owned(),
            dest_dir: dest,
            alt_dest_name: None,
            data: data.to_owned(),
        }
    }

    /// A unit whose directory and file name are split out of one path at its
    /// last slash, with the source text already read.  The destination is
    /// left empty: this is the shape the manifest-driven scan wants, whose
    /// shared default destination fills it afterwards.
    pub fn from_path(path: &str, data: &str) -> (r: Self)
        ensures
            r@.file_name == path_name(path@),
            r@.relative_dir == path_dir(path@),
            r@.dest_dir == Seq::<char>::empty(),
            r@.alt_dest_name is None,
            r@.data == data@,
    {
        let (dir, name) = split_path(path);
        Self::new(name.as_str(), dir.as_str(), None, data)
    }

    /// A unit for one file found by a directory walk, with the source text
    /// already read: its source directory is the file's containing directory
    /// and its destination mirrors that same directory, so rendering
    /// regenerates the file in place.
    pub fn from_discovered(path: &str, data: &str) -> (r: Self)
        ensures
            r@.file_name == path_name(path@),
            r@.relative_dir == path_dir(path@),
            r@.dest_dir == path_dir(path@),
            r@.alt_dest_name is None,
            r@.data == data@,
    {
        let (dir, name) = split_path(path);
        Self::new(name.as_str(), dir.as_str(), Some(dir.as_str()), data)
    }

    /// Fills an empty source directory with the shared default — a directory
    /// the unit already names wins — and stores the source text re-read from
    /// the resolved location.
    pub fn set_relative_dir(&mut self, relative_dir: &str, data: &str)
        ensures
            final(self)@ == (TemplateView {
                relative_dir: if old(self)@.relative_dir.len() == 0 {
                    relative_dir@
                } else {
                    old(self)@.relative_dir
                },
                data: data@,
                ..old(self)@
            }),
    {
        if self.relative_dir.as_str().is_empty() {
            self.relative_dir = relative_dir.to_owned();
        }
        self.data = data.to_owned();
    }

    /// Fills an empty destination directory with the shared default; a
    /// directory the unit already names wins.
    pub fn set_dest_dir(&mut self, dest_dir: &str)
        ensures
            final(self)@ == (TemplateView {
                dest_dir: if old(self)@.dest_dir.len() == 0 {
                    dest_dir@
                } else {
                    old(self)@.dest_dir
                },
                ..old(self)@
            }),
    {
        if self.dest_dir.as_str().is_empty() {
            self.dest_dir = dest_dir.to_owned();
        }
    }

    /// The path of the unit's source file as it will stand once an empty
    /// source directory has been filled with the given default.
    pub fn source_path_with_default(&self, default_dir: &str) -> (r: String)
        ensures
            r@ == join_path(
                if self@.relative_dir.len() == 0 {
                    default_dir@
                } else {
                    self@.relative_dir
                },
                self@.file_name,
            ),
    {
        if self.relative_dir.as_str().is_empty() {
            join_path_str(default_dir, self.file_name.as_str())
        } else {
            join_path_str(self.relative_dir.as_str(), self.file_name.as_str())
        }
    }

    /// The resolved path of the unit's source file.
    pub fn source_path(&self) -> (r: String)
        ensures
            r@ == join_path(self@.relative_dir, self@.file_name),
    {
        join_path_str(self.relative_dir.as_str(), self.file_name.as_str())
    }

    /// Renders this unit: applies every field in order to a fresh copy of the
    /// source text and says where the result goes.  A unit whose text failed
    /// to load — it is empty — is a no-op and yields no job.
    pub fn evaluate(&self, fields: &[Field]) -> (r: Option<RenderJob>)
        ensures
            r is Some <==> self@.data.len() != 0,
            r matches Some(job) ==> job@ == unit_job(self@, field_pairs(fields@)),
    {
        if self.data.as_str().is_empty() {
            return None;
        }
        let ghost pairs = field_pairs(fields@);
        let mut text = self.data.clone();
        let n = fields.len();
        let mut i: usize = 0;
        proof {
            assert(pairs.skip(0) =~= pairs);
        }
        while i < n
            invariant
                n == fields@.len(),
                0 <= i <= n,
                pairs == field_pairs(fields@),
                apply_pairs(self@.data, pairs) == apply_pairs(text@, pairs.skip(i as int)),
            decreases n - i,
        {
            let pat = pattern_string(fields[i].name());
            proof {
                assert(pat@.len() == fields@[i as int]@.name.len() + 2);
                lemma_apply_step(text@, pairs, i as int);
            }
            text = replace_all_str(text.as_str(), pat.as_str(), fields[i].value());
            i += 1;
        }
        proof {
            assert(pairs.skip(n as int) =~= Seq::<(Seq<char>, Seq<char>)>::empty());
        }
        let source_path = self.source_path();
        let out_name: &str = match &self.alt_dest_name {
            Some(name) => name.as_str(),
            None => self.file_name.as_str(),
        };
        let dest_path = join_path_str(self.dest_dir.as_str(), out_name);
        Some(
            RenderJob {
                source_path,
                dest_dir: self.dest_dir.clone(),
                dest_path,
                text,
            },
        )
    }
}

/// An ordered sequence of template units.
pub type Templates = Vec<Template>;

/// The views of a sequence of template units.
pub open spec fn templates_view(s: Seq<Template>) -> Seq<TemplateView> {
    s.map_values(|t: Template| t@)
}

/// The unit a manifest entry describes: an object whose `file_name` is
/// required text, whose directories default to empty text, and whose renamed
/// output may be absent or null.  Anything else is a type error.  The source
/// text is left empty until defaults are resolved and it is read.
pub open spec fn manifest_template(v: JsonValue) -> Option<TemplateView> {
    match v {
        JsonValue::Obj(pairs) => {
            match obj_lookup(pairs@, "file_name"@) {
                Some(JsonValue::Str(file_name)) => {
                    match (str_or_empty(pairs@, "relative_dir"@), str_or_empty(
                        pairs@,
                        "dest_dir"@,
                    )) {
                        (Some(relative_dir), Some(dest_dir)) => {
                            match obj_lookup(pairs@, "alt_dest_name"@) {
                                None => Some(TemplateView {
                                    relative_dir,
                                    file_name: file_name@,
                                    dest_dir,
                                    alt_dest_name: None,
                                    data: Seq::empty(),
                                }),
                                Some(JsonValue::Null) => Some(TemplateView {
                                    relative_dir,
                                    file_name: file_name@,
                                    dest_dir,
                                    alt_dest_name: None,
                                    data: Seq::empty(),
                                }),
                                Some(JsonValue::Str(alt)) => Some(TemplateView {
                                    relative_dir,
                                    file_name: file_name@,
                                    dest_dir,
                                    alt_dest_name: Some(alt@),
                                    data: Seq::empty(),
                                }),
                                Some(_) => None,
                            }
                        },
                        _ => None,
                    }
                },
                _ => None,
            }
        },
        _ => None,
    }
}

/// Law: a unit whose whole text is exactly one placeholder, rendered with
/// the one field carrying that name, renders to exactly the field's value.
pub proof fn lemma_unit_round_trip(t: TemplateView, name: Seq<char>, value: Seq<char>)
    requires
        t.data == pattern_of(name),
    ensures
        unit_job(t, seq![(name, value)]).text == value,
{
    lemma_single_field_round_trip(name, value);
}

/// Law: a unit in whose text none of the listed placeholders stands renders
/// to its text unchanged.
pub proof fn lemma_unit_missing_placeholders(t: TemplateView, pairs: Seq<(Seq<char>, Seq<char>)>)
    requires
        forall|i: int| 0 <= i < pairs.len() ==> !occurs(t.data, pattern_of(#[trigger] pairs[i].0)),
    ensures
        unit_job(t, pairs).text == t.data,
{
    lemma_no_placeholder_unchanged(t.data, pairs);
}

impl Template {
    /// The unit a manifest entry describes, or nothing where the entry's
    /// shape is wrong.
    pub fn from_manifest(v: &JsonValue) -> (r: Option<Template>)
        ensures
            match r {
                Some(t) => manifest_template(*v) == Some(t@),
                None => manifest_template(*v) is None,
            },
    {
        let pairs = match v {
            JsonValue::Obj(pairs) => pairs,
            _ => {
                return None;
            },
        };
        let file_name = match obj_get(pairs, "file_name") {
            Some(JsonValue::Str(s)) => s.clone(),
            _ => {
                return None;
            },
        };
        let relative_dir = match get_str_or_empty(pairs, "relative_dir") {
            Some(s) => s,
            None => {
                return None;
            },
        };
        let dest_dir = match get_str_or_empty(pairs, "dest_dir") {
            Some(s) => s,
            None => {
                return None;
            },
        };
        let alt_dest_name = match obj_get(pairs, "alt_dest_name") {
            None => None,
            Some(JsonValue::Null) => None,
            Some(JsonValue::Str(s)) => Some(s.clone()),
            Some(_) => {
                return None;
            },
        };
        Some(
            Template {
                relative_dir,
                file_name,
                dest_dir,
                alt_dest_name,
                data: String::new(),
            },
        )
    }
}

} // verus!
