//! Skills: instructions that the agent can load when it needs them.
use vstd::prelude::*;
use vstd::string::*;

use crate::json::{Json, Tree, object};
use crate::keyed::{Keyed, found, get};
use crate::path;
use crate::text::{concat3, lines, line_seq, same, trim, trim_start_matches, trimmed, without_leading};
use crate::tool::call::{CallView, ToolCallContext};
use crate::tool::description::{DescriptionView, ToolDescription};
use crate::tool::error::{ErrorView, ToolError, failed, no_service};
use crate::tool::registry::Tool;
use crate::tool::stream::result_view;
use crate::tools::schema::{word_trees, word_views, words};

verus! {

/// Named instructions.
#[derive(Debug, Clone)]
pub struct Skill {
    pub name: String,
    pub description: String,
    pub content: String,
}

/// What a skill stands for.
#[verifier::ext_equal]
pub struct SkillView {
    pub name: Seq<char>,
    pub description: Seq<char>,
    pub content: Seq<char>,
}

impl View for Skill {
    type V = SkillView;

    open spec fn view(&self) -> SkillView {
        SkillView {
            name: self.name@,
            description: self.description@,
            content: self.content@,
        }
    }
}

impl DeepView for Skill {
    type V = SkillView;

    open spec fn deep_view(&self) -> SkillView {
        self@
    }
}

impl Keyed for Skill {
    open spec fn key_of(v: SkillView) -> Seq<char> {
        v.name
    }

    fn key(&self) -> (r: &str) {
        self.name.as_str()
    }
}

/// The skills that are always there, then those of the user.
#[derive(Debug)]
pub struct SkillStore {
    skills: Vec<Skill>,
}

impl View for SkillStore {
    type V = Seq<SkillView>;

    closed spec fn view(&self) -> Seq<SkillView> {
        self.skills.deep_view()
    }
}

/// The skills that are always there.
pub open spec fn builtin() -> Seq<SkillView> {
    seq![
        SkillView {
            name: "code-review"@,
            description: "审查代码的 bug、风格与正确性"@,
            content: "## Code Review\n\n1. Read the diff or changed files.\n2. Check for: correctness bugs, resource leaks, error handling, race conditions, style violations.\n3. Report findings as a prioritized list (critical → nit).\n4. Suggest concrete fixes for each finding."@,
        },
        SkillView {
            name: "write-tests"@,
            description: "为新代码编写单元测试"@,
            content: "## Write Tests\n\n1. Identify the public functions/behaviors of the new code.\n2. For each, write a focused unit test covering the happy path and one edge/error case.\n3. Run the test suite and confirm green."@,
        },
        SkillView {
            name: "debugging"@,
            description: "系统性排查一个失败的程序"@,
            content: "## Debugging\n\n1. Reproduce the failure and read the exact error.\n2. Form a hypothesis about the root cause.\n3. Add the minimal diagnostic (log / test) to confirm or refute it.\n4. Fix the root cause, not the symptom; re-run to verify.\n5. If the same fix failed twice, step back and reconsider the assumption."@,
        },
        SkillView {
            name: "commit-message"@,
            description: "写一条清晰的 commit message"@,
            content: "## Commit Message\n\nUse `<type>: <summary>` where type ∈ {feat, fix, docs, refactor, chore, test}. Keep the summary under ~60 chars, imperative mood, no trailing period. Add a body only for non-obvious context."@,
        },
    ]
}

fn skill(name: &str, description: &str, content: &str) -> (r: Skill)
    ensures
        r@ == (SkillView { name: name@, description: description@, content: content@ }),
{
    Skill {
        name: name.to_owned(),
        description: description.to_owned(),
        content: content.to_owned(),
    }
}

fn builtin_skills() -> (skills: Vec<Skill>)
    ensures
        skills.deep_view() == builtin(),
{
    let mut skills: Vec<Skill> = Vec::new();
    skills.push(
        skill(
            "code-review",
            "审查代码的 bug、风格与正确性",
            "## Code Review\n\n1. Read the diff or changed files.\n2. Check for: correctness bugs, resource leaks, error handling, race conditions, style violations.\n3. Report findings as a prioritized list (critical → nit).\n4. Suggest concrete fixes for each finding.",
        ),
    );
    skills.push(
        skill(
            "write-tests",
            "为新代码编写单元测试",
            "## Write Tests\n\n1. Identify the public functions/behaviors of the new code.\n2. For each, write a focused unit test covering the happy path and one edge/error case.\n3. Run the test suite and confirm green.",
        ),
    );
    skills.push(
        skill(
            "debugging",
            "系统性排查一个失败的程序",
            "## Debugging\n\n1. Reproduce the failure and read the exact error.\n2. Form a hypothesis about the root cause.\n3. Add the minimal diagnostic (log / test) to confirm or refute it.\n4. Fix the root cause, not the symptom; re-run to verify.\n5. If the same fix failed twice, step back and reconsider the assumption.",
        ),
    );
    skills.push(
        skill(
            "commit-message",
            "写一条清晰的 commit message",
            "## Commit Message\n\nUse `<type>: <summary>` where type ∈ {feat, fix, docs, refactor, chore, test}. Keep the summary under ~60 chars, imperative mood, no trailing period. Add a body only for non-obvious context.",
        ),
    );
    assert(skills.deep_view() =~= builtin());
    skills
}

/// The first line that is not blank, without the marks of a heading.
pub open spec fn heading(ls: Seq<Seq<char>>) -> Seq<char>
    decreases ls.len(),
{
    if ls.len() == 0 {
        ""@
    } else if trimmed(ls[0]).len() == 0 {
        heading(ls.drop_first())
    } else {
        trimmed(without_leading(ls[0], '#'))
    }
}

/// The skill in a file: its name is that of the file, its description the first heading.
pub open spec fn skill_in(file: Seq<char>, content: Seq<char>) -> SkillView {
    SkillView { name: path::stem_of(file), description: heading(line_seq(content)), content }
}

/// The skills in the entries of a directory: names, and contents where they can be read. Only
/// Markdown files count.
pub open spec fn skills_in(entries: Seq<(Seq<char>, Option<Seq<char>>)>) -> Seq<SkillView>
    decreases entries.len(),
{
    if entries.len() == 0 {
        Seq::empty()
    } else {
        let (file, content) = entries.last();
        if path::extension_of(file) == Some("md"@) && content is Some {
            skills_in(entries.drop_last()).push(skill_in(file, content->0))
        } else {
            skills_in(entries.drop_last())
        }
    }
}

fn read_heading(content: &str) -> (r: String)
    ensures
        r@ == heading(line_seq(content@)),
{
    let ls = lines(content);
    let ghost all = ls.deep_view();
    let mut i: usize = 0;
    assert(all.skip(0) =~= all);
    while i < ls.len()
        invariant
            i <= ls@.len(),
            all == ls.deep_view(),
            all == line_seq(content@),
            heading(all.skip(i as int)) == heading(all),
        decreases ls@.len() - i,
    {
        let ghost rest = all.skip(i as int);
        assert(rest[0] == ls@[i as int]@);
        assert(rest.drop_first() =~= all.skip(i + 1));
        if !trim(ls[i].as_str()).as_str().is_empty() {
            let bare = trim_start_matches(ls[i].as_str(), '#');
            return trim(bare.as_str());
        }
        i = i + 1;
    }
    "".to_owned()
}

impl SkillStore {
    /// The skills that are always there, and those in the entries of a directory where there is
    /// one.
    pub fn new(entries: Option<&Vec<(String, Option<String>)>>) -> (r: SkillStore)
        ensures
            r@ == (match entries {
                Some(e) => builtin() + skills_in(e.deep_view()),
                None => builtin(),
            }),
    {
        let mut skills = builtin_skills();
        match entries {
            Some(files) => {
                let ghost all = files.deep_view();
                let mut i: usize = 0;
                assert(builtin() + skills_in(all.take(0)) =~= builtin());
                while i < files.len()
                    invariant
                        i <= files@.len(),
                        all == files.deep_view(),
                        skills.deep_view() == builtin() + skills_in(all.take(i as int)),
                    decreases files@.len() - i,
                {
                    proof {
                        assert(all.take(i + 1).drop_last() =~= all.take(i as int));
                        assert(all.take(i + 1).last() == files@[i as int].deep_view());
                    }
                    let ghost before = skills.deep_view();
                    let markdown = match path::extension(files[i].0.as_str()) {
                        Some(e) => same(e.as_str(), "md"),
                        None => false,
                    };
                    if markdown {
                        match &files[i].1 {
                            Some(content) => {
                                let s = Skill {
                                    name: path::stem(files[i].0.as_str()),
                                    description: read_heading(content.as_str()),
                                    content: content.clone(),
                                };
                                skills.push(s);
                                assert(skills.deep_view() =~= before.push(s@));
                                assert(skills.deep_view() =~= builtin() + skills_in(
                                    all.take(i + 1),
                                ));
                            },
                            None => {},
                        }
                    }
                    i = i + 1;
                }
                assert(all.take(i as int) =~= all);
            },
            None => {},
        }
        SkillStore { skills }
    }

    /// The names and descriptions of all skills.
    pub fn list(&self) -> (r: Vec<(String, String)>)
        ensures
            r.deep_view() == Seq::new(self@.len(), |i: int| (self@[i].name, self@[i].description)),
    {
        let mut out: Vec<(String, String)> = Vec::new();
        let mut i: usize = 0;
        while i < self.skills.len()
            invariant
                i <= self.skills@.len(),
                out@.len() == i,
                forall|k: int|
                    0 <= k < i ==> (#[trigger] out@[k]).deep_view() == (
                        self.skills@[k].name@,
                        self.skills@[k].description@,
                    ),
            decreases self.skills@.len() - i,
        {
            out.push((self.skills[i].name.clone(), self.skills[i].description.clone()));
            i = i + 1;
        }
        assert(out.deep_view() =~= Seq::new(
            self@.len(),
            |i: int| (self@[i].name, self@[i].description),
        ));
        out
    }

    /// The content of the first skill of a name.
    pub fn get(&self, name: &str) -> (r: Option<String>)
        ensures
            r.deep_view() == (match found::<Skill>(self@, name@) {
                Some(s) => Some(s.content),
                None => None,
            }),
    {
        match get(&self.skills, name) {
            Some(s) => Some(s.content.clone()),
            None => None,
        }
    }
}

/// Loads a skill by its name.
#[derive(Debug, Clone, Copy, PartialEq, Eq, Structural)]
pub struct SkillTool;

impl Tool for SkillTool {
    open spec fn named(&self) -> Seq<char> {
        "skill"@
    }

    open spec fn described(&self) -> DescriptionView {
        DescriptionView {
            name: "skill"@,
            description: "Load a reusable skill's instructions by name (use skill_list to see available skills)."@,
            parameters: object().with("type"@, Tree::Text("object"@)).with(
                "properties"@,
                object().with("name"@, object().with("type"@, Tree::Text("string"@))),
            ).with("required"@, Tree::Array(word_trees(seq!["name"@]))),
        }
    }

    open spec fn listed(&self, ctx: CallView) -> bool {
        true
    }

    fn id(&self) -> (r: String) {
        "skill".to_owned()
    }

    fn description(&self) -> (r: ToolDescription) {
        let list1: Vec<&'static str> = vec!["name"];
        assert(word_views(list1@) =~= seq!["name"@]);
        let parameters = Json::object().with("type", Json::text("object")).with(
            "properties",
            Json::object().with("name", Json::object().with("type", Json::text("string"))),
        ).with("required", words(list1));
        ToolDescription::new(
            "skill",
            "Load a reusable skill's instructions by name (use skill_list to see available skills).",
            parameters,
        )
    }

    fn should_list(&self, ctx: &ToolCallContext) -> (r: bool) {
        true
    }
}

/// What the tool gives.
pub open spec fn skill_result(store: Option<Seq<SkillView>>, args: Tree) -> Result<Tree, ErrorView> {
    match args.text_at("name"@) {
        None => Err(failed("缺少 name"@)),
        Some(name) => match store {
            None => Err(no_service("SkillStore"@)),
            Some(skills) => match found::<Skill>(skills, name) {
                Some(s) => Ok(
                    object().with("name"@, Tree::Text(name)).with(
                        "content"@,
                        Tree::Text(s.content),
                    ),
                ),
                None => Err(failed("技能 "@ + name + " 不存在"@)),
            },
        },
    }
}

/// Skills as they stand.
pub open spec fn skills_view(store: Option<&SkillStore>) -> Option<Seq<SkillView>> {
    match store {
        Some(s) => Some(s@),
        None => None,
    }
}

impl SkillTool {
    /// Loads a skill.
    pub fn run(&self, store: Option<&SkillStore>, args: &Json) -> (r: Result<Json, ToolError>)
        ensures
            result_view(r) == skill_result(skills_view(store), args@),
    {
        let name = match args.str_at("name") {
            Some(n) => n,
            None => return Err(ToolError::execution("缺少 name")),
        };
        let store = match store {
            Some(s) => s,
            None => return Err(ToolError::missing_service("SkillStore")),
        };
        match store.get(name) {
            Some(content) => Ok(
                Json::object().with("name", Json::text(name)).with("content", Json::Text(content)),
            ),
            None => {
                let message = concat3("技能 ", name, " 不存在");
                Err(ToolError::execution(message.as_str()))
            },
        }
    }
}

/// Lists the skills.
#[derive(Debug, Clone, Copy, PartialEq, Eq, Structural)]
pub struct SkillListTool;

impl Tool for SkillListTool {
    open spec fn named(&self) -> Seq<char> {
        "skill_list"@
    }

    open spec fn described(&self) -> DescriptionView {
        DescriptionView {
            name: "skill_list"@,
            description: "List available skills (name + description)."@,
            parameters: object().with("type"@, Tree::Text("object"@)).with("properties"@, object()),
        }
    }

    open spec fn listed(&self, ctx: CallView) -> bool {
        true
    }

    fn id(&self) -> (r: String) {
        "skill_list".to_owned()
    }

    fn description(&self) -> (r: ToolDescription) {
        let parameters = Json::object().with("type", Json::text("object")).with(
            "properties",
            Json::object(),
        );
        ToolDescription::new(
            "skill_list",
            "List available skills (name + description).",
            parameters,
        )
    }

    fn should_list(&self, ctx: &ToolCallContext) -> (r: bool) {
        true
    }
}

/// The names and descriptions of skills as JSON.
pub open spec fn skills_tree(skills: Seq<SkillView>) -> Tree {
    object().with(
        "skills"@,
        Tree::Array(
            Seq::new(
                skills.len(),
                |i: int|
                    object().with("name"@, Tree::Text(skills[i].name)).with(
                        "description"@,
                        Tree::Text(skills[i].description),
                    ),
            ),
        ),
    )
}

impl SkillStore {
    /// The names and descriptions of all skills as JSON.
    pub fn to_json(&self) -> (r: Json)
        ensures
            r@ == skills_tree(self@),
    {
        let mut out: Vec<Json> = Vec::new();
        let mut i: usize = 0;
        while i < self.skills.len()
            invariant
                i <= self.skills@.len(),
                out@.len() == i,
                forall|k: int|
                    0 <= k < i ==> (#[trigger] out@[k])@ == object().with(
                        "name"@,
                        Tree::Text(self.skills@[k].name@),
                    ).with("description"@, Tree::Text(self.skills@[k].description@)),
            decreases self.skills@.len() - i,
        {
            out.push(
                Json::object().with("name", Json::text(self.skills[i].name.as_str())).with(
                    "description",
                    Json::text(self.skills[i].description.as_str()),
                ),
            );
            i = i + 1;
        }
        assert(out.deep_view() =~= Seq::new(
            self@.len(),
            |i: int|
                object().with("name"@, Tree::Text(self@[i].name)).with(
                    "description"@,
                    Tree::Text(self@[i].description),
                ),
        ));
        Json::object().with("skills", Json::array(out))
    }
}

impl SkillListTool {
    /// Lists the skills.
    pub fn run(&self, store: Option<&SkillStore>) -> (r: Result<Json, ToolError>)
        ensures
            result_view(r) == (match skills_view(store) {
                Some(skills) => Ok::<Tree, ErrorView>(skills_tree(skills)),
                None => Err::<Tree, ErrorView>(no_service("SkillStore"@)),
            }),
    {
        match store {
            Some(s) => Ok(s.to_json()),
            None => Err(ToolError::missing_service("SkillStore")),
        }
    }
}

} // verus!
