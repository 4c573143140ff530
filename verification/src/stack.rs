//! A stack: a named directory with a compose document, an optional
//! override document and an optional `.env` file.

use crate::codec::{parse_yaml, yaml_document};
use crate::error::{AppError, AppResult};
use crate::keyed::{find_key, key_index};
use crate::paths::{absolute, is_absolute, join_path, path_join};
use crate::pieces::{blank, is_blank, lines, lines_of, str_views, views};
use crate::state::{SimpleStackInfo, SimpleStackInfoView};
use crate::status::{RUNNING, RUNNING_AND_EXITED, started, UNHEALTHY, UNKNOWN};
use crate::text::{chars_of, glue, has_char, holds, owned, str_eq};
use vstd::prelude::*;

verus! {

// ---------------------------------------------------------------------------
// File names
// ---------------------------------------------------------------------------

/// The names under which a compose document is looked for, in this order.
pub open spec fn compose_file_names() -> Seq<Seq<char>> {
    seq!["compose.yaml"@, "docker-compose.yaml"@, "docker-compose.yml"@, "compose.yml"@]
}

/// The names under which an override document is looked for, in this order.
pub open spec fn override_file_names() -> Seq<Seq<char>> {
    seq![
        "compose.override.yaml"@,
        "compose.override.yml"@,
        "docker-compose.override.yaml"@,
        "docker-compose.override.yml"@,
    ]
}

/// The name of the file that holds a stack's environment.
pub open spec fn env_file_name() -> Seq<char> {
    ".env"@
}

/// The names under which a compose document is looked for, in this order.
pub fn accepted_compose_file_names() -> (r: Vec<&'static str>)
    ensures
        r@.len() == 4,
        name_texts(r@) == compose_file_names(),
{
    let mut r: Vec<&'static str> = Vec::new();
    r.push("compose.yaml");
    r.push("docker-compose.yaml");
    r.push("docker-compose.yml");
    r.push("compose.yml");
    assert(name_texts(r@) =~= compose_file_names());
    r
}

/// The names under which an override document is looked for, in this order.
pub fn accepted_compose_override_file_names() -> (r: Vec<&'static str>)
    ensures
        r@.len() == 4,
        name_texts(r@) == override_file_names(),
{
    let mut r: Vec<&'static str> = Vec::new();
    r.push("compose.override.yaml");
    r.push("compose.override.yml");
    r.push("docker-compose.override.yaml");
    r.push("docker-compose.override.yml");
    assert(name_texts(r@) =~= override_file_names());
    r
}

// ---------------------------------------------------------------------------
// What is on disk
// ---------------------------------------------------------------------------

/// What a stack's directory holds: whether it is there, and its files with
/// their contents.
#[derive(Debug, Clone, PartialEq)]
pub struct StackDir {
    pub exists: bool,
    pub files: Vec<(String, String)>,
}

/// A stack's directory as plain values.
pub struct Disk {
    pub exists: bool,
    pub files: Map<Seq<char>, Seq<char>>,
}

/// The files of a listing as a map from name to content; of two files with
/// one name the first counts.
pub open spec fn file_map(files: Seq<(String, String)>) -> Map<Seq<char>, Seq<char>> {
    Map::new(
        |name: Seq<char>| key_index(files, name) is Some,
        |name: Seq<char>| files[key_index(files, name)->0].1@,
    )
}

impl View for StackDir {
    type V = Disk;

    open spec fn view(&self) -> Disk {
        Disk { exists: self.exists, files: file_map(self.files@) }
    }
}

impl StackDir {
    /// A directory that is not there.
    pub fn absent() -> (d: StackDir)
        ensures
            d@ == Disk::absent(),
    {
        let d = StackDir { exists: false, files: Vec::new() };
        assert(d@.files =~= Map::empty());
        d
    }

    /// Whether the directory holds a file of that name.
    pub fn has_file(&self, name: &str) -> (r: bool)
        ensures
            r == self@.files.dom().contains(name@),
    {
        find_key(&self.files, name).is_some()
    }

    /// The content of the file of that name.
    pub fn read(&self, name: &str) -> (r: Option<&String>)
        ensures
            match r {
                Some(content) => self@.files.dom().contains(name@) && content@
                    == self@.files[name@],
                None => !self@.files.dom().contains(name@),
            },
    {
        match find_key(&self.files, name) {
            Some(i) => Some(&self.files[i].1),
            None => None,
        }
    }
}

impl Disk {
    /// A directory that is not there.
    pub open spec fn absent() -> Disk {
        Disk { exists: false, files: Map::empty() }
    }

    /// A directory that has just been made.
    pub open spec fn fresh() -> Disk {
        Disk { exists: true, files: Map::empty() }
    }

    /// The directory after a file has been written.
    pub open spec fn write(self, name: Seq<char>, content: Seq<char>) -> Disk {
        Disk { exists: self.exists, files: self.files.insert(name, content) }
    }

    /// The index of the first of `names` under which the directory holds a
    /// file, at or after `from`.
    pub open spec fn first_present_from(self, names: Seq<Seq<char>>, from: int) -> Option<int>
        decreases names.len() - from,
    {
        if from < 0 || from >= names.len() {
            None
        } else if self.files.dom().contains(names[from]) {
            Some(from)
        } else {
            self.first_present_from(names, from + 1)
        }
    }

    /// The index of the first of `names` under which the directory holds a file.
    pub open spec fn first_present(self, names: Seq<Seq<char>>) -> Option<int> {
        self.first_present_from(names, 0)
    }
}

// ---------------------------------------------------------------------------
// The stack
// ---------------------------------------------------------------------------

/// A stack as the server holds it.
#[derive(Debug, Clone, PartialEq)]
pub struct Stack {
    pub name: String,
    pub status: i32,
    pub compose_yaml: String,
    pub compose_env: String,
    pub compose_override_yaml: String,
    pub compose_file_name: String,
    pub compose_override_file_name: String,
    pub config_file_path: Option<String>,
    pub stacks_dir: String,
    /// Whether the stack's directory was there, below the stacks root, when
    /// the stack was read.
    pub managed: bool,
}

/// A stack as plain values.
pub struct StackView {
    pub name: Seq<char>,
    pub status: int,
    pub compose_yaml: Seq<char>,
    pub compose_env: Seq<char>,
    pub compose_override_yaml: Seq<char>,
    pub compose_file_name: Seq<char>,
    pub compose_override_file_name: Seq<char>,
    pub config_file_path: Option<Seq<char>>,
    pub stacks_dir: Seq<char>,
    pub managed: bool,
}

impl View for Stack {
    type V = StackView;

    open spec fn view(&self) -> StackView {
        StackView {
            name: self.name@,
            status: self.status as int,
            compose_yaml: self.compose_yaml@,
            compose_env: self.compose_env@,
            compose_override_yaml: self.compose_override_yaml@,
            compose_file_name: self.compose_file_name@,
            compose_override_file_name: self.compose_override_file_name@,
            config_file_path: match self.config_file_path {
                Some(p) => Some(p@),
                None => None,
            },
            stacks_dir: self.stacks_dir@,
            managed: self.managed,
        }
    }
}

/// What makes a stack invalid, in the order in which it is looked for.
pub enum Invalid {
    Name,
    Yaml,
    OverrideYaml,
    Env,
}

/// What a validation error says of each kind of fault. The reader's own
/// description of a YAML fault follows the colon.
pub open spec fn invalid_says(kind: Invalid, msg: Seq<char>) -> bool {
    match kind {
        Invalid::Name => msg == "Stack name can only contain [a-z][0-9] _ - only"@,
        Invalid::Yaml => "Invalid YAML: "@.is_prefix_of(msg),
        Invalid::OverrideYaml => "Invalid override YAML: "@.is_prefix_of(msg),
        Invalid::Env => msg == "Invalid .env format"@,
    }
}

/// A character that a stack name may hold.
pub open spec fn name_char(c: char) -> bool {
    ('a' <= c && c <= 'z') || ('0' <= c && c <= '9') || c == '_' || c == '-'
}

/// A stack name is one or more of `a-z`, `0-9`, `_` and `-`.
pub open spec fn valid_name(name: Seq<char>) -> bool {
    name.len() > 0 && forall|i: int| 0 <= i < name.len() ==> name_char(#[trigger] name[i])
}

/// An environment of a single line that is not empty and holds no `=` is
/// no environment.
pub open spec fn bad_env(env: Seq<char>) -> bool {
    lines(env).len() == 1 && !has_char(lines(env)[0], '=') && lines(env)[0].len() > 0
}

impl StackView {
    /// A stack of that name below that root, as yet without content.
    pub open spec fn fresh(name: Seq<char>, stacks_dir: Seq<char>) -> StackView {
        StackView {
            name,
            status: UNKNOWN as int,
            compose_yaml: Seq::empty(),
            compose_env: Seq::empty(),
            compose_override_yaml: Seq::empty(),
            compose_file_name: compose_file_names()[0],
            compose_override_file_name: override_file_names()[0],
            config_file_path: None,
            stacks_dir,
            managed: false,
        }
    }

    /// The stack that a save or deploy event submits: a fresh stack of that
    /// name with the three texts of the event.
    pub open spec fn submitted(
        name: Seq<char>,
        stacks_dir: Seq<char>,
        compose: Seq<char>,
        env: Seq<char>,
        over: Seq<char>,
    ) -> StackView {
        StackView {
            compose_yaml: compose,
            compose_env: env,
            compose_override_yaml: over,
            ..Self::fresh(name, stacks_dir)
        }
    }

    /// What is wrong with the stack, if anything: the name, the compose
    /// document, the override document unless blank, the environment.
    pub open spec fn invalid(self) -> Option<Invalid> {
        if !valid_name(self.name) {
            Some(Invalid::Name)
        } else if yaml_document(self.compose_yaml) is None {
            Some(Invalid::Yaml)
        } else if !is_blank(self.compose_override_yaml) && yaml_document(
            self.compose_override_yaml,
        ) is None {
            Some(Invalid::OverrideYaml)
        } else if bad_env(self.compose_env) {
            Some(Invalid::Env)
        } else {
            None
        }
    }

    /// The stack after its files have been read from the directory: the
    /// first accepted compose file and the first accepted override file
    /// that are there, with their names, and the environment file.
    pub open spec fn loaded(self, d: Disk) -> StackView {
        let a = match d.first_present(compose_file_names()) {
            Some(i) => StackView {
                compose_file_name: compose_file_names()[i],
                compose_yaml: d.files[compose_file_names()[i]],
                ..self
            },
            None => self,
        };
        let b = match d.first_present(override_file_names()) {
            Some(i) => StackView {
                compose_override_file_name: override_file_names()[i],
                compose_override_yaml: d.files[override_file_names()[i]],
                ..a
            },
            None => a,
        };
        if d.files.dom().contains(env_file_name()) {
            StackView { compose_env: d.files[env_file_name()], ..b }
        } else {
            b
        }
    }

    /// The stack as it is read from a directory that is there: managed,
    /// with the given status and the files of the directory.
    pub open spec fn read(
        name: Seq<char>,
        stacks_dir: Seq<char>,
        d: Disk,
        status: int,
    ) -> StackView {
        StackView { managed: true, status, ..Self::fresh(name, stacks_dir) }.loaded(d)
    }

    /// Whether saving writes the environment file, given the directory as
    /// it is once the compose file is written: the file is there already,
    /// or the environment is not empty.
    pub open spec fn writes_env(self, d: Disk) -> bool {
        d.files.dom().contains(env_file_name()) || self.compose_env.len() > 0
    }

    /// Whether saving writes the override file, given the directory as it
    /// is by then: the file is there already, or the document is not empty.
    pub open spec fn writes_override(self, d: Disk) -> bool {
        d.files.dom().contains(self.compose_override_file_name)
            || self.compose_override_yaml.len() > 0
    }

    /// The directory after the stack's files have been written into it.
    pub open spec fn written(self, d: Disk) -> Disk {
        let d1 = d.write(self.compose_file_name, self.compose_yaml);
        let d2 = if self.writes_env(d1) {
            d1.write(env_file_name(), self.compose_env)
        } else {
            d1
        };
        if self.writes_override(d2) {
            d2.write(self.compose_override_file_name, self.compose_override_yaml)
        } else {
            d2
        }
    }

    /// What saving does to the directory: nothing unless the stack is
    /// valid; a new stack needs the directory absent and makes it, an
    /// existing one needs it there; then the files are written.
    pub open spec fn saved(self, is_add: bool, d: Disk) -> Option<Disk> {
        if self.invalid() is Some {
            None
        } else if is_add {
            if d.exists {
                None
            } else {
                Some(self.written(Disk::fresh()))
            }
        } else if !d.exists {
            None
        } else {
            Some(self.written(d))
        }
    }

    /// The arguments of a compose command: `compose`, the environment files
    /// (the global one, and with it the stack's own, where they are there),
    /// the command and its own arguments.
    pub open spec fn compose_options(
        command: Seq<char>,
        extra_args: Seq<Seq<char>>,
        global_env: bool,
        local_env: bool,
    ) -> Seq<Seq<char>> {
        seq!["compose"@] + (if global_env {
            seq!["--env-file"@, "../global.env"@] + (if local_env {
                seq!["--env-file"@, "./.env"@]
            } else {
                Seq::empty()
            })
        } else {
            Seq::empty()
        }) + seq![command] + extra_args
    }
}

/// What saving asks the caller to do on disk, in this order.
#[derive(Debug, Clone, PartialEq)]
pub struct SavePlan {
    /// Make the stack's directory, with the directories above it.
    pub create_dir: bool,
    /// Write these files into the directory: name and content.
    pub writes: Vec<(String, String)>,
}

impl SavePlan {
    /// The directory after the writes from index `from` on.
    pub open spec fn write_from(writes: Seq<(String, String)>, d: Disk, from: int) -> Disk
        decreases writes.len() - from,
    {
        if from < 0 || from >= writes.len() {
            d
        } else {
            Self::write_from(writes, d.write(writes[from].0@, writes[from].1@), from + 1)
        }
    }

    /// The directory after the plan has been carried out.
    pub open spec fn carried_out(&self, d: Disk) -> Disk {
        Self::write_from(
            self.writes@,
            if self.create_dir {
                Disk::fresh()
            } else {
                d
            },
            0,
        )
    }
}

impl Stack {
    /// A stack of that name below that root, as yet without content.
    pub fn new(name: String, stacks_dir: String) -> (s: Stack)
        ensures
            s@ == StackView::fresh(name@, stacks_dir@),
    {
        Stack {
            name,
            status: UNKNOWN,
            compose_yaml: String::new(),
            compose_env: String::new(),
            compose_override_yaml: String::new(),
            compose_file_name: owned("compose.yaml"),
            compose_override_file_name: owned("compose.override.yaml"),
            config_file_path: None,
            stacks_dir,
            managed: false,
        }
    }

    /// The stack's directory: its name below the stacks root.
    pub fn path(&self) -> (r: String)
        ensures
            r@ == path_join(self.stacks_dir@, self.name@),
    {
        join_path(self.stacks_dir.as_str(), self.name.as_str())
    }

    /// The stack's directory from the root of the file system, given the
    /// directory that relative paths start from.
    pub fn full_path(&self, current_dir: &str) -> (r: String)
        ensures
            r@ == if is_absolute(path_join(self.stacks_dir@, self.name@)) {
                path_join(self.stacks_dir@, self.name@)
            } else {
                path_join(current_dir@, path_join(self.stacks_dir@, self.name@))
            },
    {
        let p = self.path();
        if absolute(p.as_str()) {
            p
        } else {
            join_path(current_dir, p.as_str())
        }
    }

    /// Whether the stack's directory is there below the stacks root;
    /// a project that only the engine knows is not managed.
    pub fn is_managed_by_dockge(&self) -> (r: bool)
        ensures
            r == self.managed,
    {
        self.managed
    }

    /// Whether something of the stack runs.
    pub fn is_started(&self) -> (r: bool)
        ensures
            r == started(self.status as int),
    {
        self.status == RUNNING || self.status == RUNNING_AND_EXITED || self.status == UNHEALTHY
    }

    /// Reads the stack's files from its directory.
    pub fn load_from_disk(&mut self, dir: &StackDir)
        ensures
            final(self)@ == old(self)@.loaded(dir@),
    {
        let names = accepted_compose_file_names();
        match first_present(dir, &names) {
            Some(i) => {
                match dir.read(names[i]) {
                    Some(content) => {
                        self.compose_file_name = owned(names[i]);
                        self.compose_yaml = content.clone();
                    },
                    None => {},
                }
            },
            None => {},
        }
        let overrides = accepted_compose_override_file_names();
        match first_present(dir, &overrides) {
            Some(i) => {
                match dir.read(overrides[i]) {
                    Some(content) => {
                        self.compose_override_file_name = owned(overrides[i]);
                        self.compose_override_yaml = content.clone();
                    },
                    None => {},
                }
            },
            None => {},
        }
        match dir.read(".env") {
            Some(content) => {
                self.compose_env = content.clone();
            },
            None => {},
        }
    }

    /// The record of the stack in the stack list.
    pub fn to_simple_json(
        &self,
        endpoint: &str,
        recreate_necessary: bool,
        image_updates_available: bool,
    ) -> (r: SimpleStackInfo)
        ensures
            r@ == self@.simple(endpoint@, recreate_necessary, image_updates_available),
    {
        let r = SimpleStackInfo {
            name: self.name.clone(),
            status: self.status,
            started: self.is_started(),
            recreate_necessary,
            image_updates_available,
            tags: Vec::new(),
            is_managed_by_dockge: self.is_managed_by_dockge(),
            compose_file_name: self.compose_file_name.clone(),
            compose_override_file_name: self.compose_override_file_name.clone(),
            endpoint: owned(endpoint),
        };
        assert(r@.tags =~= Seq::empty());
        r
    }

    /// Checks the stack: its name, its documents and its environment.
    pub fn validate(&self) -> (r: AppResult<()>)
        ensures
            match self@.invalid() {
                None => r is Ok,
                Some(kind) => r matches Err(AppError::Validation(msg)) && invalid_says(kind, msg@),
            },
    {
        if !is_valid_name(self.name.as_str()) {
            return Err(
                AppError::Validation(owned("Stack name can only contain [a-z][0-9] _ - only")),
            );
        }
        match parse_yaml(self.compose_yaml.as_str()) {
            Ok(_) => {},
            Err(e) => {
                let msg = glue("Invalid YAML: ", e.as_str());
                assert("Invalid YAML: "@.is_prefix_of(msg@));
                return Err(AppError::Validation(msg));
            },
        }
        let over = chars_of(self.compose_override_yaml.as_str());
        if !blank(&over) {
            match parse_yaml(self.compose_override_yaml.as_str()) {
                Ok(_) => {},
                Err(e) => {
                    let msg = glue("Invalid override YAML: ", e.as_str());
                    assert("Invalid override YAML: "@.is_prefix_of(msg@));
                    return Err(AppError::Validation(msg));
                },
            }
        }
        let env = chars_of(self.compose_env.as_str());
        let ls = lines_of(&env);
        if ls.len() == 1 {
            assert(views(ls@)[0] == ls@[0]@);
            if !holds(&ls[0], '=') && ls[0].len() > 0 {
                return Err(AppError::Validation(owned("Invalid .env format")));
            }
        }
        Ok(())
    }

    /// Decides what saving the stack writes, given its directory as it is.
    /// Nothing is to be written unless the stack is valid and the directory
    /// is absent for a new stack or there for an existing one.
    pub fn save(&self, is_add: bool, dir: &StackDir) -> (r: AppResult<SavePlan>)
        ensures
            match self@.invalid() {
                Some(kind) => r matches Err(AppError::Validation(msg)) && invalid_says(kind, msg@),
                None => if is_add && dir.exists {
                    r matches Err(AppError::Validation(msg)) && msg@
                        == "Stack name already exists"@
                } else if !is_add && !dir.exists {
                    r matches Err(AppError::NotFound(msg)) && msg@ == "Stack not found"@
                } else {
                    r matches Ok(plan) && plan.create_dir == is_add && self@.saved(is_add, dir@)
                        == Some(plan.carried_out(dir@))
                },
            },
            r is Err ==> self@.saved(is_add, dir@) is None,
    {
        match self.validate() {
            Ok(_) => {},
            Err(e) => {
                return Err(e);
            },
        }
        if is_add {
            if dir.exists {
                return Err(AppError::Validation(owned("Stack name already exists")));
            }
        } else if !dir.exists {
            return Err(AppError::NotFound(owned("Stack not found")));
        }
        let ghost start = if is_add {
            Disk::fresh()
        } else {
            dir@
        };
        let mut writes: Vec<(String, String)> = Vec::new();
        writes.push((self.compose_file_name.clone(), self.compose_yaml.clone()));
        let ghost d1 = start.write(self.compose_file_name@, self.compose_yaml@);
        let compose_is_env = str_eq(self.compose_file_name.as_str(), ".env");
        let env_there = compose_is_env || (!is_add && dir.has_file(".env"));
        assert(env_there == d1.files.dom().contains(env_file_name()));
        let env = chars_of(self.compose_env.as_str());
        let env_written = env_there || env.len() > 0;
        if env_written {
            writes.push((owned(".env"), self.compose_env.clone()));
        }
        let ghost d2 = if env_written {
            d1.write(env_file_name(), self.compose_env@)
        } else {
            d1
        };
        let over_there = str_eq(
            self.compose_override_file_name.as_str(),
            self.compose_file_name.as_str(),
        ) || (env_written && str_eq(self.compose_override_file_name.as_str(), ".env")) || (!is_add
            && dir.has_file(self.compose_override_file_name.as_str()));
        assert(over_there == d2.files.dom().contains(self.compose_override_file_name@));
        let over = chars_of(self.compose_override_yaml.as_str());
        if over_there || over.len() > 0 {
            writes.push(
                (self.compose_override_file_name.clone(), self.compose_override_yaml.clone()),
            );
        }
        let plan = SavePlan { create_dir: is_add, writes };
        proof {
            let w = plan.writes@;
            let d3 = self@.written(start);
            assert(SavePlan::write_from(w, start, 0) == d3) by {
                reveal_with_fuel(SavePlan::write_from, 5);
            }
        }
        Ok(plan)
    }

    /// The arguments of a compose command for this stack. `global_env` says
    /// whether `global.env` is there beside the stacks root, `local_env`
    /// whether the stack's directory holds `.env`.
    pub fn get_compose_options(
        &self,
        command: &str,
        extra_args: &Vec<String>,
        global_env: bool,
        local_env: bool,
    ) -> (r: Vec<String>)
        ensures
            str_views(r@) == StackView::compose_options(
                command@,
                str_views(extra_args@),
                global_env,
                local_env,
            ),
    {
        let mut options: Vec<String> = Vec::new();
        options.push(owned("compose"));
        if global_env {
            options.push(owned("--env-file"));
            options.push(owned("../global.env"));
            if local_env {
                options.push(owned("--env-file"));
                options.push(owned("./.env"));
            }
        }
        options.push(owned(command));
        let ghost head = str_views(options@);
        let ghost n = options@.len();
        assert(head.len() == n);
        assert(str_views(extra_args@).take(0) =~= Seq::empty());
        assert(head + Seq::<Seq<char>>::empty() =~= head);
        let mut i: usize = 0;
        while i < extra_args.len()
            invariant
                i <= extra_args.len(),
                options@.len() == n + i,
                head.len() == n,
                str_views(options@) == head + str_views(extra_args@).take(i as int),
            decreases extra_args.len() - i,
        {
            let arg = extra_args[i].clone();
            proof {
                let a = str_views(options@.push(arg));
                let b = head + str_views(extra_args@).take(i + 1);
                assert(a.len() == b.len());
                assert forall|k: int| 0 <= k < a.len() implies a[k] == b[k] by {
                    if k < n + i {
                        assert(a[k] == str_views(options@)[k]);
                    }
                }
                assert(a == b);
            }
            options.push(arg);
            i = i + 1;
        }
        proof {
            assert(str_views(extra_args@).take(extra_args.len() as int) == str_views(
                extra_args@,
            ));
            assert(head =~= seq!["compose"@] + (if global_env {
                seq!["--env-file"@, "../global.env"@] + (if local_env {
                    seq!["--env-file"@, "./.env"@]
                } else {
                    Seq::empty()
                })
            } else {
                Seq::empty()
            }) + seq![command@]);
        }
        options
    }
}

impl StackView {
    /// The record of the stack in the stack list.
    pub open spec fn simple(
        self,
        endpoint: Seq<char>,
        recreate_necessary: bool,
        image_updates_available: bool,
    ) -> SimpleStackInfoView {
        SimpleStackInfoView {
            name: self.name,
            status: self.status,
            started: started(self.status),
            recreate_necessary,
            image_updates_available,
            tags: Seq::empty(),
            is_managed_by_dockge: self.managed,
            compose_file_name: self.compose_file_name,
            compose_override_file_name: self.compose_override_file_name,
            endpoint,
        }
    }
}

/// The names as texts.
pub open spec fn name_texts(names: Seq<&'static str>) -> Seq<Seq<char>> {
    Seq::new(names.len(), |k: int| names[k]@)
}

pub fn first_present(dir: &StackDir, names: &Vec<&'static str>) -> (r: Option<usize>)
    ensures
        crate::text::index_view(r) == dir@.first_present(name_texts(names@)),
        r matches Some(i) ==> i < names.len() && dir@.files.dom().contains(names@[i as int]@),
{
    let mut i: usize = 0;
    while i < names.len()
        invariant
            i <= names.len(),
            dir@.first_present(name_texts(names@)) == dir@.first_present_from(
                name_texts(names@),
                i as int,
            ),
        decreases names.len() - i,
    {
        assert(name_texts(names@)[i as int] == names@[i as int]@);
        if dir.has_file(names[i]) {
            return Some(i);
        }
        i = i + 1;
    }
    None
}

/// Whether the text is a stack name.
pub fn is_valid_name(name: &str) -> (r: bool)
    ensures
        r == valid_name(name@),
{
    let n = chars_of(name);
    if n.len() == 0 {
        return false;
    }
    let mut i: usize = 0;
    while i < n.len()
        invariant
            i <= n.len(),
            n@ == name@,
            forall|k: int| 0 <= k < i ==> name_char(#[trigger] n@[k]),
        decreases n.len() - i,
    {
        let c = n[i];
        if !(('a' <= c && c <= 'z') || ('0' <= c && c <= '9') || c == '_' || c == '-') {
            return false;
        }
        i = i + 1;
    }
    true
}

} // verus!
