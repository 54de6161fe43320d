//! HOME-rooted provenance for Antigravity-generated content artifacts.

use vstd::prelude::*;

use super::super::stream::{ConversationId, ToolName};
use crate::text::{
    chars_equal, chars_of, decimal, fields, fields_of, push_chars, push_decimal, string_from_chars, views,
};

verus! {

/// A path as its components: whether it is absolute, and its named parts (empty parts and
/// `.` parts do not count, as `Path::components` has it for absolute paths).
pub struct PathView {
    pub absolute: bool,
    pub parts: Seq<Seq<char>>,
}

/// The parts that name something.
pub open spec fn kept_parts(fs: Seq<Seq<char>>) -> Seq<Seq<char>>
    decreases fs.len(),
{
    if fs.len() == 0 {
        Seq::empty()
    } else {
        let rest = kept_parts(fs.drop_last());
        if fs.last().len() > 0 && fs.last() != "."@ {
            rest.push(fs.last())
        } else {
            rest
        }
    }
}

/// The components of a path text.
pub open spec fn path_view(p: Seq<char>) -> PathView {
    PathView { absolute: p.len() > 0 && p[0] == '/', parts: kept_parts(fields(p, '/')) }
}

/// The generated-content root under an absolute home: `HOME/.gemini/antigravity-cli/brain`.
pub open spec fn root_from_home(home: Seq<char>) -> Option<Seq<Seq<char>>> {
    if home.len() > 0 && home[0] == '/' {
        Some(path_view(home).parts + seq![".gemini"@, "antigravity-cli"@, "brain"@])
    } else {
        None
    }
}

/// The directory of the artifacts one step of a conversation produced.
pub open spec fn step_parts(root: Seq<Seq<char>>, conversation: Seq<char>, producer: u64) -> Seq<Seq<char>> {
    root + seq![conversation, ".system_generated"@, "steps"@, decimal(producer as nat)]
}

/// The content artifact one step of a conversation produced.
pub open spec fn content_parts(root: Seq<Seq<char>>, conversation: Seq<char>, producer: u64) -> Seq<Seq<char>> {
    step_parts(root, conversation, producer).push("content.md"@)
}

/// A view may open only the content artifact; a grep may also search its step directory.
pub open spec fn inspection_permitted(root: Seq<Seq<char>>, tool: ToolName, conversation: Seq<char>, producer: u64, path: PathView) -> bool {
    path.absolute && match tool {
        ToolName::ViewFile => path.parts == content_parts(root, conversation, producer),
        ToolName::GrepSearch => path.parts == content_parts(root, conversation, producer) || path.parts
            == step_parts(root, conversation, producer),
        _ => false,
    }
}

/// The text of a path made of `parts`, each after a `/`.
pub open spec fn joined(parts: Seq<Seq<char>>) -> Seq<char>
    decreases parts.len(),
{
    if parts.len() == 0 {
        Seq::empty()
    } else {
        joined(parts.drop_last()) + "/"@ + parts.last()
    }
}

/// The name of the environment variable that holds the home directory.
pub fn home_environment_key() -> (k: &'static str)
    ensures
        k@ == "HOME"@,
{
    "HOME"
}

/// The parts of a path, kept from its `/`-separated fields.
fn kept_parts_exec(fs: &Vec<Vec<char>>) -> (r: Vec<Vec<char>>)
    ensures
        views(r@) == kept_parts(views(fs@)),
{
    proof {
        reveal_strlit(".");
    }
    let dot = chars_of(".");
    let ghost fv = views(fs@);
    let mut out: Vec<Vec<char>> = Vec::new();
    let mut i: usize = 0;
    proof {
        assert(fv.take(0) =~= Seq::<Seq<char>>::empty());
        assert(views(out@) =~= Seq::<Seq<char>>::empty());
    }
    while i < fs.len()
        invariant
            fv == views(fs@),
            dot@ == "."@,
            i <= fs@.len(),
            views(out@) == kept_parts(fv.take(i as int)),
        decreases fs@.len() - i,
    {
        proof {
            assert(fv.take(i + 1).drop_last() =~= fv.take(i as int));
            assert(fv.take(i + 1).last() == fs@[i as int]@);
        }
        if fs[i].len() > 0 && !chars_equal(fs[i].as_slice(), dot.as_slice()) {
            let ghost before = views(out@);
            out.push(fs[i].clone());
            proof {
                assert(views(out@) =~= before.push(fs@[i as int]@));
            }
        }
        i = i + 1;
    }
    proof {
        assert(fv.take(i as int) =~= fv);
    }
    out
}

/// The components of a path text.
pub fn path_parts(path: &str) -> (r: (bool, Vec<Vec<char>>))
    ensures
        r.0 == path_view(path@).absolute,
        views(r.1@) == path_view(path@).parts,
{
    let chars = chars_of(path);
    let absolute = chars.len() > 0 && chars[0] == '/';
    let fs = fields_of(&chars, '/');
    (absolute, kept_parts_exec(&fs))
}

/// Whether two part lists are the same.
fn same_parts(a: &Vec<Vec<char>>, b: &Vec<Vec<char>>) -> (r: bool)
    ensures
        r == (views(a@) == views(b@)),
{
    if a.len() != b.len() {
        proof {
            assert(views(a@).len() != views(b@).len());
        }
        return false;
    }
    let mut i: usize = 0;
    while i < a.len()
        invariant
            a@.len() == b@.len(),
            i <= a@.len(),
            forall|k: int| 0 <= k < i ==> a@[k]@ == b@[k]@,
        decreases a@.len() - i,
    {
        if !chars_equal(a[i].as_slice(), b[i].as_slice()) {
            proof {
                assert(views(a@)[i as int] != views(b@)[i as int]);
            }
            return false;
        }
        i = i + 1;
    }
    proof {
        assert(views(a@) =~= views(b@));
    }
    true
}

/// Where Antigravity keeps the artifacts its tools generate.
#[derive(Debug)]
pub struct GeneratedContentRoot {
    parts: Vec<Vec<char>>,
}

impl View for GeneratedContentRoot {
    type V = Seq<Seq<char>>;

    closed spec fn view(&self) -> Seq<Seq<char>> {
        views(self.parts@)
    }
}

impl GeneratedContentRoot {
    /// The root under a home directory, which must be absolute.
    pub fn from_home(home: &str) -> (r: Option<GeneratedContentRoot>)
        ensures
            match r {
                Some(root) => root_from_home(home@) == Some(root@),
                None => root_from_home(home@) is None,
            },
    {
        let (absolute, mut parts) = path_parts(home);
        if !absolute {
            return None;
        }
        let ghost before = views(parts@);
        parts.push(chars_of(".gemini"));
        parts.push(chars_of("antigravity-cli"));
        parts.push(chars_of("brain"));
        proof {
            assert(views(parts@) =~= before + seq![".gemini"@, "antigravity-cli"@, "brain"@]);
        }
        Some(GeneratedContentRoot { parts })
    }

    /// The directory of the artifacts one step produced.
    pub fn step_path(&self, conversation_id: &ConversationId, producer: u64) -> (r: Vec<Vec<char>>)
        ensures
            views(r@) == step_parts(self@, conversation_id@, producer),
    {
        let mut parts: Vec<Vec<char>> = Vec::new();
        let mut i: usize = 0;
        while i < self.parts.len()
            invariant
                i <= self.parts@.len(),
                views(parts@) == views(self.parts@).take(i as int),
            decreases self.parts@.len() - i,
        {
            let ghost before = views(parts@);
            parts.push(self.parts[i].clone());
            proof {
                assert(views(parts@) =~= before.push(self.parts@[i as int]@));
                assert(views(self.parts@).take(i + 1) =~= views(self.parts@).take(i as int).push(self.parts@[i as int]@));
            }
            i = i + 1;
        }
        proof {
            assert(views(self.parts@).take(i as int) =~= views(self.parts@));
        }
        let ghost root = views(parts@);
        parts.push(chars_of(conversation_id.as_str()));
        parts.push(chars_of(".system_generated"));
        parts.push(chars_of("steps"));
        let mut number: Vec<char> = Vec::new();
        push_decimal(&mut number, producer);
        proof {
            assert(number@ =~= decimal(producer as nat));
        }
        parts.push(number);
        proof {
            assert(views(parts@) =~= root + seq![conversation_id@, ".system_generated"@, "steps"@, decimal(producer as nat)]);
        }
        parts
    }

    /// The content artifact one step produced.
    pub fn content_path(&self, conversation_id: &ConversationId, producer: u64) -> (r: Vec<Vec<char>>)
        ensures
            views(r@) == content_parts(self@, conversation_id@, producer),
    {
        let mut parts = self.step_path(conversation_id, producer);
        let ghost before = views(parts@);
        parts.push(chars_of("content.md"));
        proof {
            assert(views(parts@) =~= before.push("content.md"@));
        }
        parts
    }

    /// Whether `tool` may inspect `path` for the artifact `producer` generated.
    pub fn permits_inspection(&self, tool: ToolName, conversation_id: &ConversationId, producer: u64, absolute: bool, path: &Vec<Vec<char>>) -> (r: bool)
        ensures
            r == inspection_permitted(self@, tool, conversation_id@, producer, PathView { absolute, parts: views(path@) }),
    {
        if !absolute {
            return false;
        }
        match tool {
            ToolName::ViewFile => same_parts(&self.content_path(conversation_id, producer), path),
            ToolName::GrepSearch => same_parts(&self.content_path(conversation_id, producer), path)
                || same_parts(&self.step_path(conversation_id, producer), path),
            ToolName::SearchWeb | ToolName::ReadUrlContent | ToolName::Other => false,
        }
    }

    /// The text of the content artifact path of one step, as a test names it.
    pub fn test_content_path(&self, conversation_id: &str, producer: u64) -> (r: String)
        ensures
            r@ == joined(self@) + "/"@ + conversation_id@ + "/.system_generated/steps/"@ + decimal(producer as nat)
                + "/content.md"@,
    {
        let mut text: Vec<char> = Vec::new();
        let slash = chars_of("/");
        let mut i: usize = 0;
        proof {
            assert(views(self.parts@).take(0) =~= Seq::<Seq<char>>::empty());
        }
        while i < self.parts.len()
            invariant
                slash@ == "/"@,
                i <= self.parts@.len(),
                text@ == joined(views(self.parts@).take(i as int)),
            decreases self.parts@.len() - i,
        {
            proof {
                assert(views(self.parts@).take(i + 1).drop_last() =~= views(self.parts@).take(i as int));
                assert(views(self.parts@).take(i + 1).last() == self.parts@[i as int]@);
            }
            push_chars(&mut text, slash.as_slice());
            push_chars(&mut text, self.parts[i].as_slice());
            proof {
                assert(text@ =~= joined(views(self.parts@).take(i as int)) + "/"@ + self.parts@[i as int]@);
            }
            i = i + 1;
        }
        proof {
            assert(views(self.parts@).take(i as int) =~= views(self.parts@));
        }
        push_chars(&mut text, slash.as_slice());
        push_chars(&mut text, chars_of(conversation_id).as_slice());
        push_chars(&mut text, chars_of("/.system_generated/steps/").as_slice());
        push_decimal(&mut text, producer);
        push_chars(&mut text, chars_of("/content.md").as_slice());
        proof {
            assert(text@ =~= joined(self@) + "/"@ + conversation_id@ + "/.system_generated/steps/"@ + decimal(producer as nat)
                + "/content.md"@);
        }
        string_from_chars(text.as_slice())
    }
}

} // verus!
