//! The template rendering engine: a registry of named templates merged from
//! two sources with explicit precedence. Built-in templates are registered
//! first; user-supplied template files are registered second, so a user file
//! can override a built-in of the same resolved name. Each template is
//! registered under its slash-normalized relative path and, if different and
//! not already taken, under its bare filename. Construction fails on the
//! first template with invalid syntax, and the failure is terminal. The
//! registry's contents mirror the underlying tera engine exactly. The engine
//! resolves which template source a render uses; the render call itself is
//! the surrounding application's step, because tera's renderer can panic on
//! admissible template input (a float literal beyond f64's range, float
//! arithmetic that overflows), which no verified wrapper may hide.

use vstd::prelude::*;
use crate::error::Error;
use crate::strutil::string_eq;

verus! {

#[verifier::external_type_specification]
#[verifier::external_body]
pub struct ExTera(tera::Tera);

/// What a `tera::Tera` engine holds: its registered template sources, by
/// template name.
pub uninterp spec fn tera_templates(t: tera::Tera) -> Map<Seq<char>, Seq<char>>;

/// Relies on `tera::Tera::default`: a fresh engine has no templates
/// registered.
#[verifier::external_body]
fn tera_new() -> (engine: tera::Tera)
    ensures
        tera_templates(engine) == (Map::<Seq<char>, Seq<char>>::empty()),
{
    tera::Tera::default()
}

/// Relies on `tera::Tera::autoescape_on`: it only sets which file suffixes
/// are auto-escaped; the registered templates are untouched.
#[verifier::external_body]
fn tera_disable_autoescape(t: &mut tera::Tera)
    ensures
        tera_templates(*final(t)) == tera_templates(*old(t)),
{
    t.autoescape_on(Vec::new());
}

/// Whether tera accepts registering `source` under `name` into an engine
/// already holding `templates`: `add_raw_template`'s success is decided by
/// its parser and by the inheritance-chain and macro checks over the
/// resulting template table, so it is a function of these three alone.
pub uninterp spec fn tera_accepts(
    templates: Map<Seq<char>, Seq<char>>,
    name: Seq<char>,
    source: Seq<char>,
) -> bool;

/// Relies on `tera::Tera::add_raw_template`: it succeeds exactly when tera
/// accepts the template, and on success the parsed template source is stored
/// under the name, replacing any previous holder.
#[verifier::external_body]
fn tera_add(t: &mut tera::Tera, name: &str, source: &str) -> (r: Result<(), String>)
    ensures
        r is Ok <==> tera_accepts(tera_templates(*old(t)), name@, source@),
        r is Ok ==> tera_templates(*final(t)) == tera_templates(*old(t)).insert(name@, source@),
{
    match t.add_raw_template(name, source) {
        Ok(()) => Ok(()),
        Err(e) => Err(e.to_string()),
    }
}

/// The bare filename of a slash-normalized template path: what follows the
/// last `/`, or the whole path if it has none.
pub open spec fn spec_bare(p: Seq<char>) -> Seq<char>
    decreases p.len(),
{
    if p.len() == 0 {
        p
    } else if p.last() == '/' {
        Seq::empty()
    } else {
        spec_bare(p.drop_last()).push(p.last())
    }
}

proof fn lemma_bare_suffix(p: Seq<char>, start: int)
    requires
        0 <= start <= p.len(),
        start == 0 || p[start - 1] == '/',
        forall|t: int| start <= t < p.len() ==> p[t] != '/',
    ensures
        spec_bare(p) == p.skip(start),
    decreases p.len(),
{
    if p.len() == start {
        if start == 0 {
            assert(p.skip(0) =~= p);
        } else {
            assert(p.last() == '/');
            assert(p.skip(start) =~= Seq::<char>::empty());
        }
    } else {
        assert(p.last() != '/');
        lemma_bare_suffix(p.drop_last(), start);
        assert(p.drop_last().skip(start).push(p.last()) =~= p.skip(start));
    }
}

/// The bare filename of a path.
pub fn bare_name(p: &str) -> (r: String)
    ensures
        r@ == spec_bare(p@),
{
    let n = p.unicode_len();
    let mut start: usize = 0;
    let mut i: usize = 0;
    while i < n
        invariant
            0 <= start <= i <= n,
            n == p@.len(),
            start == 0 || p@[start - 1] == '/',
            forall|t: int| start <= t < i ==> p@[t] != '/',
        decreases n - i,
    {
        if p.get_char(i) == '/' {
            start = i + 1;
        }
        i += 1;
    }
    let suffix = p.substring_char(start, n);
    proof {
        lemma_bare_suffix(p@, start as int);
        assert(suffix@ =~= p@.skip(start as int));
    }
    String::from_str(suffix)
}

/// The map an association list denotes; a later entry shadows an earlier one
/// of the same name.
pub open spec fn spec_assoc_map(s: Seq<(String, String)>) -> Map<Seq<char>, Seq<char>>
    decreases s.len(),
{
    if s.len() == 0 {
        Map::empty()
    } else {
        spec_assoc_map(s.drop_last()).insert(s.last().0@, s.last().1@)
    }
}

proof fn lemma_assoc_contains(s: Seq<(String, String)>, name: Seq<char>)
    ensures
        spec_assoc_map(s).contains_key(name) <==> exists|j: int|
            0 <= j < s.len() && (#[trigger] s[j]).0@ == name,
    decreases s.len(),
{
    if s.len() > 0 {
        lemma_assoc_contains(s.drop_last(), name);
        if s.last().0@ == name {
            assert(s[s.len() - 1].0@ == name);
        }
        if exists|j: int| 0 <= j < s.len() - 1 && (#[trigger] s.drop_last()[j]).0@ == name {
            let j = choose|j: int|
                0 <= j < s.len() - 1 && (#[trigger] s.drop_last()[j]).0@ == name;
            assert(s[j].0@ == name);
        }
        if exists|j: int| 0 <= j < s.len() && (#[trigger] s[j]).0@ == name {
            let j = choose|j: int| 0 <= j < s.len() && (#[trigger] s[j]).0@ == name;
            if j < s.len() - 1 {
                assert(s.drop_last()[j].0@ == name);
            }
        }
    }
}

proof fn lemma_assoc_lookup(s: Seq<(String, String)>, name: Seq<char>, i: int)
    requires
        0 <= i < s.len(),
        s[i].0@ == name,
        forall|j: int| i < j < s.len() ==> (#[trigger] s[j]).0@ != name,
    ensures
        spec_assoc_map(s).contains_key(name),
        spec_assoc_map(s)[name] == s[i].1@,
    decreases s.len(),
{
    if i == s.len() - 1 {
    } else {
        assert(s.last().0@ != name);
        lemma_assoc_lookup(s.drop_last(), name, i);
    }
}

/// The registry of named templates: an insertion-ordered association list
/// whose later entries shadow earlier ones.
pub struct TemplateRegistry {
    pub entries: Vec<(String, String)>,
}

/// One registration step: the template is stored under its full path,
/// replacing any previous holder, and under its bare filename if that is
/// different and not already taken.
pub open spec fn spec_apply(
    m: Map<Seq<char>, Seq<char>>,
    path: Seq<char>,
    content: Seq<char>,
) -> Map<Seq<char>, Seq<char>> {
    let m2 = m.insert(path, content);
    if spec_bare(path) != path && !m2.contains_key(spec_bare(path)) {
        m2.insert(spec_bare(path), content)
    } else {
        m2
    }
}

/// Registers a list of templates, in order.
pub open spec fn spec_apply_all(
    m: Map<Seq<char>, Seq<char>>,
    entries: Seq<(Seq<char>, Seq<char>)>,
) -> Map<Seq<char>, Seq<char>>
    decreases entries.len(),
{
    if entries.len() == 0 {
        m
    } else {
        spec_apply(
            spec_apply_all(m, entries.drop_last()),
            entries.last().0,
            entries.last().1,
        )
    }
}

/// The registry built from built-ins first, then user templates, in order.
pub open spec fn spec_engine_map(
    builtins: Seq<(Seq<char>, Seq<char>)>,
    user: Seq<(Seq<char>, Seq<char>)>,
) -> Map<Seq<char>, Seq<char>> {
    spec_apply_all(spec_apply_all(Map::empty(), builtins), user)
}

/// One registration step is accepted by tera: the path registration, and
/// the alias registration where one would happen.
pub open spec fn spec_step_accepts(
    m: Map<Seq<char>, Seq<char>>,
    path: Seq<char>,
    content: Seq<char>,
) -> bool {
    &&& tera_accepts(m, path, content)
    &&& ((spec_bare(path) != path && !m.insert(path, content).contains_key(spec_bare(path)))
        ==> tera_accepts(m.insert(path, content), spec_bare(path), content))
}

/// Every registration in a list is accepted, each against the registry the
/// earlier ones build.
pub open spec fn spec_accepts_all(
    m: Map<Seq<char>, Seq<char>>,
    entries: Seq<(Seq<char>, Seq<char>)>,
) -> bool
    decreases entries.len(),
{
    if entries.len() == 0 {
        true
    } else {
        spec_accepts_all(m, entries.drop_last()) && spec_step_accepts(
            spec_apply_all(m, entries.drop_last()),
            entries.last().0,
            entries.last().1,
        )
    }
}

/// Both template lists are accepted, the user's against the registry the
/// built-ins build.
pub open spec fn spec_engine_accepts(
    builtins: Seq<(Seq<char>, Seq<char>)>,
    user: Seq<(Seq<char>, Seq<char>)>,
) -> bool {
    &&& spec_accepts_all((Map::<Seq<char>, Seq<char>>::empty()), builtins)
    &&& spec_accepts_all(spec_apply_all((Map::<Seq<char>, Seq<char>>::empty()), builtins), user)
}

proof fn lemma_accepts_all_prefix(
    m: Map<Seq<char>, Seq<char>>,
    entries: Seq<(Seq<char>, Seq<char>)>,
    j: int,
)
    requires
        0 <= j <= entries.len(),
        spec_accepts_all(m, entries),
    ensures
        spec_accepts_all(m, entries.take(j)),
    decreases entries.len(),
{
    if j == entries.len() {
        assert(entries.take(j) =~= entries);
    } else {
        assert(entries.drop_last().take(j) =~= entries.take(j));
        lemma_accepts_all_prefix(m, entries.drop_last(), j);
    }
}

impl TemplateRegistry {
    /// The map this registry denotes.
    pub open spec fn as_map(self) -> Map<Seq<char>, Seq<char>> {
        spec_assoc_map(self.entries@)
    }

    /// Whether a template of the given name is registered.
    pub fn contains(&self, name: &str) -> (r: bool)
        ensures
            r == self.as_map().contains_key(name@),
    {
        let n = self.entries.len();
        let mut i: usize = 0;
        while i < n
            invariant
                0 <= i <= n,
                n == self.entries@.len(),
                forall|t: int| 0 <= t < i ==> (#[trigger] self.entries@[t]).0@ != name@,
            decreases n - i,
        {
            if string_eq(&self.entries[i].0, name) {
                proof {
                    lemma_assoc_contains(self.entries@, name@);
                }
                return true;
            }
            i += 1;
        }
        proof {
            lemma_assoc_contains(self.entries@, name@);
        }
        false
    }

    /// The registered source for a name: the latest registration wins.
    pub fn get(&self, name: &str) -> (r: Option<String>)
        ensures
            r is Some <==> self.as_map().contains_key(name@),
            r matches Some(v) ==> v@ == self.as_map()[name@],
    {
        let n = self.entries.len();
        let mut i: usize = n;
        while i > 0
            invariant
                0 <= i <= n,
                n == self.entries@.len(),
                forall|t: int| i <= t < n ==> (#[trigger] self.entries@[t]).0@ != name@,
            decreases i,
        {
            i -= 1;
            if string_eq(&self.entries[i].0, name) {
                proof {
                    lemma_assoc_lookup(self.entries@, name@, i as int);
                }
                return Some(self.entries[i].1.clone());
            }
        }
        proof {
            lemma_assoc_contains(self.entries@, name@);
        }
        None
    }
}

/// The template rendering engine: the verified registry and the tera engine
/// it mirrors.
pub struct TemplateEngine {
    pub tera: tera::Tera,
    pub registry: TemplateRegistry,
}

/// The path/content views of a template list.
pub open spec fn spec_entry_views(s: Seq<(String, String)>) -> Seq<(Seq<char>, Seq<char>)> {
    s.map_values(|e: (String, String)| (e.0@, e.1@))
}

impl TemplateEngine {
    /// The tera engine holds exactly the registry's templates.
    pub open spec fn wf(self) -> bool {
        tera_templates(self.tera) == self.registry.as_map()
    }

    /// The registered templates, by resolved name.
    pub open spec fn templates(self) -> Map<Seq<char>, Seq<char>> {
        self.registry.as_map()
    }

    /// Builds the engine: built-ins registered first, then the user's
    /// template files in the order given, each under its path and, where
    /// free, its bare filename. Fails on the first template whose syntax
    /// tera refuses; the failure is terminal for the engine.
    pub fn new(builtins: Vec<(String, String)>, user: Vec<(String, String)>) -> (r: Result<
        TemplateEngine,
        Error,
    >)
        ensures
            r is Ok <==> spec_engine_accepts(spec_entry_views(builtins@), spec_entry_views(user@)),
            r matches Ok(e) ==> e.wf() && e.templates() == spec_engine_map(
                spec_entry_views(builtins@),
                spec_entry_views(user@),
            ),
            r matches Err(err) ==> err is TemplateInitialization,
    {
        let mut tera = tera_new();
        tera_disable_autoescape(&mut tera);
        let mut registry = TemplateRegistry { entries: Vec::new() };
        let nb = builtins.len();
        let mut i: usize = 0;
        while i < nb
            invariant
                0 <= i <= nb,
                nb == builtins@.len(),
                tera_templates(tera) == registry.as_map(),
                registry.as_map() == spec_apply_all(
                    Map::empty(),
                    spec_entry_views(builtins@.take(i as int)),
                ),
                spec_accepts_all(
                    (Map::<Seq<char>, Seq<char>>::empty()),
                    spec_entry_views(builtins@.take(i as int)),
                ),
        decreases nb - i,
        {
            let path = builtins[i].0.clone();
            let content = builtins[i].1.clone();
            if let Err(e) = register_into(&mut tera, &mut registry, &path, &content) {
                proof {
                    let all = spec_entry_views(builtins@);
                    if spec_accepts_all((Map::<Seq<char>, Seq<char>>::empty()), all) {
                        lemma_accepts_all_prefix(Map::empty(), all, i + 1);
                        assert(all.take(i + 1) =~= spec_entry_views(builtins@.take(i + 1)));
                        let m = spec_entry_views(builtins@.take(i + 1));
                        assert(m.drop_last() =~= spec_entry_views(builtins@.take(i as int)));
                        assert(m.last() == (builtins@[i as int].0@, builtins@[i as int].1@));
                    }
                }
                return Err(e);
            }
            proof {
                let m = spec_entry_views(builtins@.take(i + 1));
                assert(m.drop_last() =~= spec_entry_views(builtins@.take(i as int)));
                assert(m.last() == (builtins@[i as int].0@, builtins@[i as int].1@));
            }
            i += 1;
        }
        proof {
            assert(builtins@.take(nb as int) =~= builtins@);
        }
        let ghost base = registry.as_map();
        let nu = user.len();
        let mut j: usize = 0;
        while j < nu
            invariant
                0 <= j <= nu,
                nu == user@.len(),
                tera_templates(tera) == registry.as_map(),
                registry.as_map() == spec_apply_all(base, spec_entry_views(user@.take(j as int))),
                base == spec_apply_all(Map::empty(), spec_entry_views(builtins@)),
                spec_accepts_all(
                    (Map::<Seq<char>, Seq<char>>::empty()),
                    spec_entry_views(builtins@),
                ),
                spec_accepts_all(base, spec_entry_views(user@.take(j as int))),
            decreases nu - j,
        {
            let path = user[j].0.clone();
            let content = user[j].1.clone();
            if let Err(e) = register_into(&mut tera, &mut registry, &path, &content) {
                proof {
                    let all = spec_entry_views(user@);
                    if spec_accepts_all(base, all) {
                        lemma_accepts_all_prefix(base, all, j + 1);
                        assert(all.take(j + 1) =~= spec_entry_views(user@.take(j + 1)));
                        let m = spec_entry_views(user@.take(j + 1));
                        assert(m.drop_last() =~= spec_entry_views(user@.take(j as int)));
                        assert(m.last() == (user@[j as int].0@, user@[j as int].1@));
                    }
                }
                return Err(e);
            }
            proof {
                let m = spec_entry_views(user@.take(j + 1));
                assert(m.drop_last() =~= spec_entry_views(user@.take(j as int)));
                assert(m.last() == (user@[j as int].0@, user@[j as int].1@));
            }
            j += 1;
        }
        proof {
            assert(user@.take(nu as int) =~= user@);
        }
        Ok(TemplateEngine { tera, registry })
    }

    /// The source that a name currently resolves to.
    pub fn template_source(&self, name: &str) -> (r: Option<String>)
        ensures
            r is Some <==> self.templates().contains_key(name@),
            r matches Some(v) ==> v@ == self.templates()[name@],
    {
        self.registry.get(name)
    }

    /// The registered templates as (name, source) entries, in registration
    /// order; the renderer the surrounding application runs is built from
    /// exactly these.
    pub fn entries(&self) -> (r: &Vec<(String, String)>)
        ensures
            r == &self.registry.entries,
            spec_assoc_map(r@) == self.templates(),
    {
        &self.registry.entries
    }
}

/// Adds one template to the tera engine and the registry in lock step: under
/// its path, and under its bare filename where that is different and free.
fn register_into(
    tera: &mut tera::Tera,
    registry: &mut TemplateRegistry,
    path: &String,
    content: &String,
) -> (r: Result<(), Error>)
    requires
        tera_templates(*old(tera)) == old(registry).as_map(),
    ensures
        r is Ok <==> spec_step_accepts(old(registry).as_map(), path@, content@),
        r is Ok ==> tera_templates(*final(tera)) == final(registry).as_map()
            && final(registry).as_map() == spec_apply(old(registry).as_map(), path@, content@),
        r matches Err(e) ==> e is TemplateInitialization,
{
    match tera_add(tera, path.as_str(), content.as_str()) {
        Ok(()) => {},
        Err(m) => {
            return Err(Error::TemplateInitialization { message: m });
        },
    }
    registry.entries.push((path.clone(), content.clone()));
    proof {
        assert(registry.entries@.drop_last() =~= old(registry).entries@);
        assert(registry.as_map() == old(registry).as_map().insert(path@, content@));
    }
    let bare = bare_name(path.as_str());
    if !string_eq(&bare, path.as_str()) && !registry.contains(bare.as_str()) {
        match tera_add(tera, bare.as_str(), content.as_str()) {
            Ok(()) => {},
            Err(m) => {
                return Err(Error::TemplateInitialization { message: m });
            },
        }
        let ghost mid = registry.entries@;
        registry.entries.push((bare, content.clone()));
        proof {
            assert(registry.entries@.drop_last() =~= mid);
        }
    }
    Ok(())
}

proof fn lemma_apply_all_override(
    m: Map<Seq<char>, Seq<char>>,
    user: Seq<(Seq<char>, Seq<char>)>,
    i: int,
)
    requires
        0 <= i < user.len(),
        forall|j: int| i < j < user.len() ==> (#[trigger] user[j]).0 != user[i].0,
    ensures
        spec_apply_all(m, user).contains_key(user[i].0),
        spec_apply_all(m, user)[user[i].0] == user[i].1,
    decreases user.len(),
{
    if i == user.len() - 1 {
    } else {
        lemma_apply_all_override(m, user.drop_last(), i);
        assert(user.drop_last()[i] == user[i]);
        assert(user.last().0 != user[i].0);
    }
}

proof fn lemma_apply_all_untouched(
    m: Map<Seq<char>, Seq<char>>,
    user: Seq<(Seq<char>, Seq<char>)>,
    untouched: Seq<char>,
)
    requires
        forall|j: int|
            0 <= j < user.len() ==> (#[trigger] user[j]).0 != untouched && spec_bare(user[j].0)
                != untouched,
    ensures
        spec_apply_all(m, user).contains_key(untouched) == m.contains_key(untouched),
        m.contains_key(untouched) ==> spec_apply_all(m, user)[untouched] == m[untouched],
    decreases user.len(),
{
    if user.len() > 0 {
        lemma_apply_all_untouched(m, user.drop_last(), untouched);
        assert(user[user.len() - 1].0 != untouched);
        assert(spec_bare(user[user.len() - 1].0) != untouched);
    }
}

/// Overriding a built-in template by registering a user file under the
/// built-in's bare filename causes that name to resolve to the user file's
/// content, provided no later user file registers the same path; a name
/// that no user file's path or bare filename touches resolves exactly as it
/// would with no user files at all.
pub proof fn lemma_user_template_override(
    builtins: Seq<(Seq<char>, Seq<char>)>,
    user: Seq<(Seq<char>, Seq<char>)>,
    i: int,
    untouched: Seq<char>,
)
    requires
        0 <= i < user.len(),
        forall|j: int| i < j < user.len() ==> (#[trigger] user[j]).0 != user[i].0,
        forall|j: int|
            0 <= j < user.len() ==> (#[trigger] user[j]).0 != untouched && spec_bare(user[j].0)
                != untouched,
    ensures
        spec_engine_map(builtins, user).contains_key(user[i].0),
        spec_engine_map(builtins, user)[user[i].0] == user[i].1,
        spec_engine_map(builtins, user).contains_key(untouched) == spec_engine_map(
            builtins,
            Seq::empty(),
        ).contains_key(untouched),
        spec_engine_map(builtins, user).contains_key(untouched) ==> spec_engine_map(
            builtins,
            user,
        )[untouched] == spec_engine_map(builtins, Seq::empty())[untouched],
{
    let base = spec_apply_all(Map::empty(), builtins);
    lemma_apply_all_override(base, user, i);
    lemma_apply_all_untouched(base, user, untouched);
}

} // verus!
