//! Project list.

use vstd::prelude::*;

use crate::text::{chars_of, text_of};
use crate::time::{relative_at, relative_time_at, Timestamp};
use crate::web::api;
use crate::web::api::models::Project;
use crate::web::api::{loaded, project_path, ApiError, Body, Call, Load, Method, NewProject};
use crate::web::pages::forms::KeyForm;
use crate::web::pages::Next;
use crate::web::toast::Notice;

verus! {

/// The page of the projects.
#[derive(Debug)]
pub struct Projects {
    pub projects: Load<Vec<Project>>,
    pub creating: bool,
}

impl Projects {
    pub fn new() -> (page: Projects)
        ensures
            page == (Projects { projects: Load::Loading, creating: false }),
    {
        Projects { projects: Load::Loading, creating: false }
    }

    /// Asks for the projects.
    pub fn reload<'a>(&mut self, token: Option<&'a str>) -> (call: Option<Call<'a>>)
        ensures
            match token {
                Some(token) => {
                    &&& *final(self) == (Projects { projects: Load::Loading, ..*old(self) })
                    &&& call matches Some(call) && call.is(
                        Method::Get,
                        "/projects"@,
                        Some(token@),
                    ) && call.body == Body::Nothing
                },
                None => *final(self) == *old(self) && call is None,
            },
    {
        match token {
            Some(token) => {
                self.projects = Load::Loading;
                Some(api::list_projects(token))
            },
            None => None,
        }
    }

    /// What the server said.
    pub fn projects_loaded(&mut self, answer: Result<Vec<Project>, ApiError>)
        ensures
            *final(self) == (Projects { projects: loaded(answer), ..*old(self) }),
    {
        self.projects = Load::from(answer);
    }

    /// A project was created: the dialog closes, and the list is loaded again.
    pub fn created(&mut self, name: &str) -> (after: (Notice, Next))
        ensures
            *final(self) == (Projects { creating: false, ..*old(self) }),
            after.0.succeeds("Project \u{201c}"@ + name@ + "\u{201d} created"@),
            after.1 == Next::Reload,
    {
        self.creating = false;
        let mut title: String = "Project \u{201c}".to_owned();
        title.append(name);
        title.append("\u{201d} created");
        (Notice::success(title), Next::Reload)
    }
}

/// Where a project's card leads.
pub fn project_href(project: &Project) -> (href: String)
    ensures
        href@ == project_path(project.key@),
{
    let mut href: String = "/projects/".to_owned();
    href.append(project.key.as_str());
    href
}

/// What a card says of a project.
pub fn card_description(project: &Project) -> (text: String)
    ensures
        text@ == (match project.description {
            Some(description) => description@,
            None => "No description."@,
        }),
{
    match &project.description {
        Some(description) => description.clone(),
        None => "No description.".to_owned(),
    }
}

/// What a card says of a project's age, at `now`.
pub fn card_age(project: &Project, now: Timestamp) -> (text: String)
    ensures
        text@ == "Created "@ + relative_at(project.created_at@, now),
{
    let mut text: String = "Created ".to_owned();
    text.append(relative_time_at(project.created_at.as_str(), now).as_str());
    text
}

/// Sends the form of a new project.
pub fn create_project<'a>(form: &'a mut KeyForm, token: Option<&'a str>) -> (call: Option<Call<'a>>)
    ensures
        *final(form) == (KeyForm { busy: true, ..*old(form) }),
        match (old(form).busy, token) {
            (false, Some(token)) => {
                &&& call matches Some(call)
                &&& call.is(Method::Post, "/projects"@, Some(token@))
                &&& call.body matches Body::Project(body)
                &&& body.key@ == old(form).key@
                &&& body.name@ == old(form).name@
                &&& body.description is None
            },
            _ => call is None,
        },
{
    if !form.begin() {
        return None;
    }
    match token {
        Some(token) => Some(
            api::create_project(
                token,
                NewProject {
                    key: form.key.as_str(),
                    name: form.name.as_str(),
                    description: None,
                },
            ),
        ),
        None => None,
    }
}

/// What the server said: the name of the new project, or what went wrong.
pub fn project_created(form: &mut KeyForm, answer: Result<Project, ApiError>) -> (outcome: Result<
    String,
    Notice,
>)
    ensures
        *final(form) == (KeyForm { busy: false, ..*old(form) }),
        match answer {
            Ok(project) => outcome == Ok::<String, Notice>(project.name),
            Err(error) => outcome matches Err(notice) && notice.fails(
                "Could not create the project"@,
                error,
            ),
        },
{
    form.finish();
    match answer {
        Ok(project) => Ok(project.name),
        Err(error) => Err(Notice::error("Could not create the project", &error)),
    }
}

// ------------------------------------------------------------------------ slugs

/// Whether a character is a digit or a lower-case letter of the alphabet.
pub open spec fn is_plain(c: char) -> bool {
    'a' <= c <= 'z' || '0' <= c <= '9'
}

/// The plain character that stands for a letter or a digit; none for anything
/// else.
pub open spec fn plain(c: char) -> Option<char> {
    if is_plain(c) {
        Some(c)
    } else if 'A' <= c <= 'Z' {
        Some((c as u32 + 32) as char)
    } else {
        None
    }
}

/// A name in plain characters, with a dash wherever something else stood between
/// them, and perhaps one at the end.
pub open spec fn dashed(name: Seq<char>) -> Seq<char>
    decreases name.len(),
{
    if name.len() == 0 {
        Seq::empty()
    } else {
        let before = dashed(name.drop_last());
        match plain(name.last()) {
            Some(c) => before.push(c),
            None => if before.len() == 0 || before.last() == '-' {
                before
            } else {
                before.push('-')
            },
        }
    }
}

/// A text without a dash at its end.
pub open spec fn undashed(text: Seq<char>) -> Seq<char> {
    if text.len() > 0 && text.last() == '-' {
        text.drop_last()
    } else {
        text
    }
}

/// The key suggested for a name.
pub open spec fn slug(name: Seq<char>) -> Seq<char> {
    undashed(dashed(name))
}

/// Plain characters with single dashes between them.
pub open spec fn is_slug(key: Seq<char>) -> bool {
    &&& forall|i: int| 0 <= i < key.len() ==> is_plain(#[trigger] key[i]) || key[i] == '-'
    &&& key.len() > 0 ==> key[0] != '-' && key.last() != '-'
    &&& forall|i: int| 0 < i < key.len() && #[trigger] key[i] == '-' ==> key[i - 1] != '-'
}

proof fn dashed_is_almost_a_slug(name: Seq<char>)
    ensures
        forall|i: int|
            0 <= i < dashed(name).len() ==> is_plain(#[trigger] dashed(name)[i]) || dashed(name)[i]
                == '-',
        dashed(name).len() > 0 ==> dashed(name)[0] != '-',
        forall|i: int|
            0 < i < dashed(name).len() && #[trigger] dashed(name)[i] == '-' ==> dashed(name)[i - 1]
                != '-',
    decreases name.len(),
{
    if name.len() > 0 {
        dashed_is_almost_a_slug(name.drop_last());
    }
}

/// A suggested key is always one the server accepts, but for the empty one.
pub proof fn slug_is_acceptable(name: Seq<char>)
    ensures
        is_slug(slug(name)),
{
    dashed_is_almost_a_slug(name);
}

proof fn slug_is_its_own_dashed(key: Seq<char>, to: int)
    requires
        is_slug(key),
        0 <= to <= key.len(),
    ensures
        dashed(key.take(to)) == key.take(to),
    decreases to,
{
    if to > 0 {
        slug_is_its_own_dashed(key, to - 1);
        assert(key.take(to).drop_last() =~= key.take(to - 1));
        assert(key.take(to).last() == key[to - 1]);
        if to > 1 {
            assert(key.take(to - 1).last() == key[to - 2]);
        }
        assert(key.take(to) =~= key.take(to - 1).push(key[to - 1]));
    } else {
        assert(key.take(0) =~= Seq::empty());
    }
}

/// A key that is a slug already is suggested as it is; so suggesting twice
/// changes nothing.
pub proof fn slug_of_a_slug_is_itself(key: Seq<char>)
    requires
        is_slug(key),
    ensures
        slug(key) == key,
{
    slug_is_its_own_dashed(key, key.len() as int);
    assert(key.take(key.len() as int) =~= key);
}

fn plain_of(c: char) -> (found: Option<char>)
    ensures
        found == plain(c),
{
    if ('a' <= c && c <= 'z') || ('0' <= c && c <= '9') {
        Some(c)
    } else if 'A' <= c && c <= 'Z' {
        Some(((c as u8) + 32) as char)
    } else {
        None
    }
}

/// The key suggested for a name.
pub fn slugify(name: &str) -> (key: String)
    ensures
        key@ == slug(name@),
        is_slug(key@),
        forall|i: int|
            0 <= i < key@.len() ==> 'a' <= #[trigger] key@[i] <= 'z' || '0' <= key@[i] <= '9'
                || key@[i] == '-',
        key@.len() > 0 ==> key@[0] != '-' && key@.last() != '-',
        forall|i: int| 0 < i < key@.len() && #[trigger] key@[i] == '-' ==> key@[i - 1] != '-',
{
    let chars = chars_of(name);
    let mut out: Vec<char> = Vec::new();
    for i in 0..chars.len()
        invariant
            chars@ == name@,
            out@ == dashed(chars@.take(i as int)),
    {
        assert(chars@.take(i + 1).drop_last() =~= chars@.take(i as int));
        match plain_of(chars[i]) {
            Some(c) => {
                out.push(c);
            },
            None => {
                if out.len() > 0 && out[out.len() - 1] != '-' {
                    out.push('-');
                }
            },
        }
    }
    assert(chars@.take(chars.len() as int) =~= name@);
    proof {
        slug_is_acceptable(name@);
    }
    let end: usize = if out.len() > 0 && out[out.len() - 1] == '-' {
        out.len() - 1
    } else {
        out.len()
    };
    let key = text_of(&out, 0, end);
    assert(key@ =~= slug(name@));
    key
}

/// A suggested key keeps every letter and digit of the name, in order and in lower
/// case, and nothing else but dashes.
pub proof fn a_slug_keeps_letters_and_digits(name: Seq<char>)
    ensures
        slug(name).filter(|c: char| c != '-') == name.filter(
            |c: char| 'a' <= c <= 'z' || '0' <= c <= '9' || 'A' <= c <= 'Z',
        ).map_values(
            |c: char|
                if 'A' <= c <= 'Z' {
                    (c as u32 + 32) as char
                } else {
                    c
                },
        ),
{
    dashes_add_nothing(name);
    reveal(Seq::filter);
    let text = dashed(name);
    if text.len() > 0 && text.last() == '-' {
        assert(text.filter(|c: char| c != '-') == text.drop_last().filter(|c: char| c != '-'));
    }
}

proof fn dashes_add_nothing(name: Seq<char>)
    ensures
        dashed(name).filter(|c: char| c != '-') == name.filter(
            |c: char| 'a' <= c <= 'z' || '0' <= c <= '9' || 'A' <= c <= 'Z',
        ).map_values(
            |c: char|
                if 'A' <= c <= 'Z' {
                    (c as u32 + 32) as char
                } else {
                    c
                },
        ),
    decreases name.len(),
{
    reveal(Seq::filter);
    let solid = |c: char| c != '-';
    let kept = |c: char| 'a' <= c <= 'z' || '0' <= c <= '9' || 'A' <= c <= 'Z';
    let lower = |c: char|
        if 'A' <= c <= 'Z' {
            (c as u32 + 32) as char
        } else {
            c
        };
    let text = dashed(name);
    if name.len() == 0 {
        assert(text.filter(solid) =~= name.filter(kept).map_values(lower));
    } else {
        let shorter = name.drop_last();
        let before = dashed(shorter);
        dashes_add_nothing(shorter);
        match plain(name.last()) {
            Some(c) => {
                assert(c == lower(name.last()));
                assert(c != '-');
                assert(text.drop_last() =~= before);
                assert(text.filter(solid) == before.filter(solid).push(c));
                assert(name.filter(kept) == shorter.filter(kept).push(name.last()));
                assert(name.filter(kept).map_values(lower) =~= shorter.filter(kept).map_values(
                    lower,
                ).push(c));
            },
            None => {
                assert(!kept(name.last()));
                if text != before {
                    assert(text.drop_last() =~= before);
                    assert(text.filter(solid) == before.filter(solid));
                }
            },
        }
    }
}

/// A key of letters, digits and single dashes between them is suggested as it is.
pub proof fn a_key_in_shape_is_kept(key: Seq<char>)
    requires
        forall|i: int|
            0 <= i < key.len() ==> 'a' <= #[trigger] key[i] <= 'z' || '0' <= key[i] <= '9' || key[i]
                == '-',
        key.len() > 0 ==> key[0] != '-' && key.last() != '-',
        forall|i: int| 0 < i < key.len() && #[trigger] key[i] == '-' ==> key[i - 1] != '-',
    ensures
        slug(key) == key,
{
    slug_of_a_slug_is_itself(key);
}

/// Whatever stands between two parts of a name becomes one dash.
pub proof fn a_gap_becomes_one_dash(front: Seq<char>, gap: Seq<char>, back: Seq<char>)
    requires
        is_slug(front),
        front.len() > 0,
        gap.len() > 0,
        forall|i: int|
            0 <= i < gap.len() ==> !('a' <= #[trigger] gap[i] <= 'z' || '0' <= gap[i] <= '9' || 'A'
                <= gap[i] <= 'Z'),
        is_slug(back),
        back.len() > 0,
    ensures
        slug(front + gap + back) == front + seq!['-'] + back,
{
    slug_is_its_own_dashed(front, front.len() as int);
    assert(front.take(front.len() as int) =~= front);
    a_gap_adds_a_dash(front, gap);
    let start = front + gap;
    assert(dashed(start) =~= front + seq!['-']);
    a_part_is_added(start, back, back.len() as int);
    assert(back.take(back.len() as int) =~= back);
    assert((dashed(start) + back).last() == back.last());
}

proof fn a_gap_adds_a_dash(front: Seq<char>, gap: Seq<char>)
    requires
        dashed(front) == front,
        front.len() > 0,
        front.last() != '-',
        gap.len() > 0,
        forall|i: int|
            0 <= i < gap.len() ==> !('a' <= #[trigger] gap[i] <= 'z' || '0' <= gap[i] <= '9' || 'A'
                <= gap[i] <= 'Z'),
    ensures
        dashed(front + gap) == front.push('-'),
    decreases gap.len(),
{
    let shorter = gap.drop_last();
    assert((front + gap).drop_last() =~= front + shorter);
    assert((front + gap).last() == gap[gap.len() - 1]);
    if shorter.len() > 0 {
        a_gap_adds_a_dash(front, shorter);
    } else {
        assert(front + shorter =~= front);
    }
}

proof fn a_part_is_added(start: Seq<char>, part: Seq<char>, to: int)
    requires
        dashed(start).len() > 0,
        dashed(start).last() == '-',
        is_slug(part),
        0 <= to <= part.len(),
    ensures
        dashed(start + part.take(to)) == dashed(start) + part.take(to),
    decreases to,
{
    if to == 0 {
        assert(start + part.take(0) =~= start);
        assert(dashed(start) + part.take(0) =~= dashed(start));
    } else {
        a_part_is_added(start, part, to - 1);
        let text = start + part.take(to);
        assert(text.drop_last() =~= start + part.take(to - 1));
        assert(text.last() == part[to - 1]);
        let before = dashed(start) + part.take(to - 1);
        if to > 1 {
            assert(before.last() == part[to - 2]);
        }
        assert(is_plain(part[to - 1]) || part[to - 1] == '-');
        assert(dashed(text) == before.push(part[to - 1]));
        assert(before.push(part[to - 1]) =~= dashed(start) + part.take(to));
    }
}

} // verus!
