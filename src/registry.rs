use vstd::prelude::*;

use crate::builtins::{builtin_name, lemma_builtin_names_distinct, Command};
use crate::text::{
    append_text, lemma_text_lt_total, lemma_text_lt_transitive, push_char, same_text,
    strictly_sorted, text_less, text_lt,
};
use crate::parser::opt_view;
use crate::tokenizer::views;

verus! {

/// The path recorded for `name` in a list of (name, path) entries: the one
/// of the first entry with that name.
pub open spec fn first_path(entries: Seq<(Seq<char>, Seq<char>)>, name: Seq<char>) -> Option<
    Seq<char>,
>
    decreases entries.len(),
{
    if entries.len() == 0 {
        None
    } else {
        match first_path(entries.drop_last(), name) {
            Some(p) => Some(p),
            None => if entries.last().0 == name {
                Some(entries.last().1)
            } else {
                None
            },
        }
    }
}

/// A name found in a prefix of the entries keeps its path in the whole.
proof fn lemma_first_path_prefix(entries: Seq<(Seq<char>, Seq<char>)>, name: Seq<char>, n: int)
    requires
        0 <= n <= entries.len(),
        first_path(entries.subrange(0, n), name) is Some,
    ensures
        first_path(entries, name) == first_path(entries.subrange(0, n), name),
    decreases entries.len() - n,
{
    if n < entries.len() {
        assert(entries.subrange(0, n + 1).drop_last() =~= entries.subrange(0, n));
        lemma_first_path_prefix(entries, name, n + 1);
    } else {
        assert(entries.subrange(0, n) =~= entries);
    }
}

pub open spec fn entry_views(v: Seq<(String, String)>) -> Seq<(Seq<char>, Seq<char>)> {
    v.map_values(|e: (String, String)| (e.0@, e.1@))
}

/// The names that the shell can run, with what they resolve to, and the
/// lines entered so far.
pub struct CommandRegistry {
    builtins: Vec<Command>,
    executables: Vec<(String, String)>,
    history: Vec<String>,
}

impl CommandRegistry {
    /// The builtin called `name`, if one is registered.
    pub closed spec fn builtin(&self, name: Seq<char>) -> Option<Command> {
        if exists|c: Command| self.builtins@.contains(c) && builtin_name(c) == name {
            Some(choose|c: Command| self.builtins@.contains(c) && builtin_name(c) == name)
        } else {
            None
        }
    }

    /// The path of the executable called `name`, if one is registered.
    pub closed spec fn executable(&self, name: Seq<char>) -> Option<Seq<char>> {
        first_path(entry_views(self.executables@), name)
    }

    /// Every name that resolves to a builtin or to an executable.
    pub open spec fn known_names(&self) -> Set<Seq<char>> {
        Set::new(|n: Seq<char>| self.builtin(n) is Some || self.executable(n) is Some)
    }

    /// The lines entered so far, oldest first.
    pub closed spec fn history_lines(&self) -> Seq<Seq<char>> {
        views(self.history@)
    }

    /// A registry with no builtins, no executables and no history.
    pub fn new() -> (r: Self)
        ensures
            forall|n: Seq<char>| r.builtin(n) is None && r.executable(n) is None,
            r.history_lines() == Seq::<Seq<char>>::empty(),
    {
        let r = CommandRegistry { builtins: Vec::new(), executables: Vec::new(), history: Vec::new() };
        assert(r.history_lines() =~= Seq::<Seq<char>>::empty());
        r
    }

    /// A registry that holds every builtin, and no executable yet.
    pub fn with_builtins() -> (r: Self)
        ensures
            forall|c: Command| #[trigger] r.builtin(builtin_name(c)) == Some(c),
            forall|n: Seq<char>| r.executable(n) is None,
            r.history_lines() == Seq::<Seq<char>>::empty(),
    {
        let mut r = CommandRegistry::new();
        let all = Command::all();
        let mut i: usize = 0;
        while i < all.len()
            invariant
                0 <= i <= all.len(),
                all@ == seq![Command::Type, Command::Echo, Command::Exit, Command::Pwd, Command::Cd, Command::History],
                forall|j: int| 0 <= j < i ==> #[trigger] r.builtin(builtin_name(all@[j])) == Some(all@[j]),
                forall|n: Seq<char>| r.executable(n) is None,
                r.history_lines() == Seq::<Seq<char>>::empty(),
            decreases all.len() - i,
        {
            r.register_builtin(all[i]);
            i = i + 1;
        }
        assert forall|c: Command| #[trigger] r.builtin(builtin_name(c)) == Some(c) by {
            match c {
                Command::Type => assert(r.builtin(builtin_name(all@[0])) == Some(all@[0])),
                Command::Echo => assert(r.builtin(builtin_name(all@[1])) == Some(all@[1])),
                Command::Exit => assert(r.builtin(builtin_name(all@[2])) == Some(all@[2])),
                Command::Pwd => assert(r.builtin(builtin_name(all@[3])) == Some(all@[3])),
                Command::Cd => assert(r.builtin(builtin_name(all@[4])) == Some(all@[4])),
                Command::History => assert(r.builtin(builtin_name(all@[5])) == Some(all@[5])),
            }
        }
        r
    }

    /// Makes `command` callable by its name.
    pub fn register_builtin(&mut self, command: Command)
        ensures
            final(self).builtin(builtin_name(command)) == Some(command),
            forall|n: Seq<char>|
                n != builtin_name(command) ==> #[trigger] final(self).builtin(n) == old(self).builtin(n),
            forall|n: Seq<char>| #[trigger] final(self).executable(n) == old(self).executable(n),
            final(self).history_lines() == old(self).history_lines(),
    {
        let ghost before = self.builtins@;
        self.builtins.push(command);
        assert(self.builtins@ == before.push(command));
        assert(self.builtins@[before.len() as int] == command);
        assert(self.builtins@.contains(command));
        assert forall|n: Seq<char>| n != builtin_name(command) implies #[trigger] self.builtin(n) == old(self).builtin(n) by {
            assert forall|c: Command| self.builtins@.contains(c) && builtin_name(c) == n implies old(self).builtins@.contains(c) by {
                let j = choose|j: int| 0 <= j < self.builtins@.len() && self.builtins@[j] == c;
                assert(j < before.len());
                assert(before[j] == c);
            }
            assert forall|c: Command| old(self).builtins@.contains(c) implies self.builtins@.contains(c) by {
                let j = choose|j: int| 0 <= j < before.len() && before[j] == c;
                assert(self.builtins@[j] == c);
            }
        }
        let ghost found = choose|c: Command| self.builtins@.contains(c) && builtin_name(c) == builtin_name(command);
        proof {
            lemma_builtin_names_distinct(found, command);
        }
    }

    /// The builtin called `name`, if there is one.
    pub fn get_builtin(&self, name: &str) -> (r: Option<Command>)
        ensures
            r == self.builtin(name@),
    {
        let mut i: usize = 0;
        while i < self.builtins.len()
            invariant
                i <= self.builtins.len(),
                forall|j: int| 0 <= j < i ==> builtin_name(#[trigger] self.builtins@[j]) != name@,
            decreases self.builtins.len() - i,
        {
            let c = self.builtins[i];
            if same_text(c.get_name(), name) {
                assert(self.builtins@.contains(c));
                let ghost found = choose|d: Command| self.builtins@.contains(d) && builtin_name(d) == name@;
                proof {
                    lemma_builtin_names_distinct(found, c);
                }
                return Some(c);
            }
            i = i + 1;
        }
        assert forall|c: Command| self.builtins@.contains(c) implies builtin_name(c) != name@ by {
            let j = choose|j: int| 0 <= j < self.builtins@.len() && self.builtins@[j] == c;
        }
        None
    }

    /// The path of the executable called `name`, if there is one.
    pub fn get_executable(&self, name: &str) -> (r: Option<&String>)
        ensures
            match r {
                Some(p) => self.executable(name@) == Some(p@),
                None => self.executable(name@) is None,
            },
    {
        let ghost entries = entry_views(self.executables@);
        let mut i: usize = 0;
        assert(entries.subrange(0, 0) =~= Seq::<(Seq<char>, Seq<char>)>::empty());
        while i < self.executables.len()
            invariant
                i <= self.executables.len(),
                entries == entry_views(self.executables@),
                first_path(entries.subrange(0, i as int), name@) is None,
            decreases self.executables.len() - i,
        {
            assert(entries.subrange(0, i + 1).drop_last() =~= entries.subrange(0, i as int));
            if same_text(self.executables[i].0.as_str(), name) {
                proof {
                    lemma_first_path_prefix(entries, name@, i + 1);
                }
                return Some(&self.executables[i].1);
            }
            i = i + 1;
        }
        assert(entries.subrange(0, i as int) =~= entries);
        None
    }

    /// Records that `name` runs the executable at `path`, unless an earlier
    /// registration already gave `name` a path.
    pub fn register_executable(&mut self, name: &str, path: &str)
        ensures
            final(self).executable(name@) == match old(self).executable(name@) {
                Some(p) => Some(p),
                None => Some(path@),
            },
            forall|n: Seq<char>| n != name@ ==> #[trigger] final(self).executable(n) == old(self).executable(n),
            forall|n: Seq<char>| #[trigger] final(self).builtin(n) == old(self).builtin(n),
            final(self).history_lines() == old(self).history_lines(),
    {
        if self.get_executable(name).is_some() {
            return;
        }
        let ghost before = entry_views(self.executables@);
        let entry = (name.to_owned(), path.to_owned());
        self.executables.push(entry);
        assert(entry_views(self.executables@).drop_last() =~= before);
    }

    /// Appends a line to the history.
    pub fn add_history_entry(&mut self, cmd: &str)
        ensures
            final(self).history_lines() == old(self).history_lines().push(cmd@),
            forall|n: Seq<char>| #[trigger] final(self).builtin(n) == old(self).builtin(n),
            forall|n: Seq<char>| #[trigger] final(self).executable(n) == old(self).executable(n),
    {
        let ghost before = self.history@;
        self.history.push(cmd.to_owned());
        assert(views(self.history@) =~= views(before).push(cmd@));
    }

    /// The lines entered so far, oldest first.
    pub fn get_history(&self) -> (r: Vec<String>)
        ensures
            views(r@) == self.history_lines(),
    {
        let mut r: Vec<String> = Vec::new();
        let mut i: usize = 0;
        while i < self.history.len()
            invariant
                i <= self.history.len(),
                views(r@) == views(self.history@).subrange(0, i as int),
            decreases self.history.len() - i,
        {
            let ghost prev = r@;
            r.push(self.history[i].clone());
            assert(views(r@) =~= views(prev).push(self.history@[i as int]@));
            assert(views(self.history@).subrange(0, i + 1) =~= views(self.history@).subrange(0, i as int).push(self.history@[i as int]@));
            i = i + 1;
        }
        assert(views(self.history@).subrange(0, i as int) =~= views(self.history@));
        r
    }
    /// The history as a file holds it: each line followed by a newline.
    pub fn history_text(&self) -> (r: String)
        ensures
            r@ == history_file_text(self.history_lines()),
    {
        let mut r = String::new();
        let mut i: usize = 0;
        while i < self.history.len()
            invariant
                i <= self.history.len(),
                r@ == history_file_text(views(self.history@).subrange(0, i as int)),
            decreases self.history.len() - i,
        {
            assert(views(self.history@).subrange(0, i + 1).drop_last() =~= views(
                self.history@,
            ).subrange(0, i as int));
            append_text(&mut r, self.history[i].as_str());
            push_char(&mut r, '\n');
            i = i + 1;
        }
        assert(views(self.history@).subrange(0, i as int) =~= views(self.history@));
        r
    }

    /// Appends the lines of a history file's text to the history.
    pub fn load_history_text(&mut self, content: &str)
        ensures
            final(self).history_lines() == old(self).history_lines() + lines_of(content@),
            forall|n: Seq<char>| #[trigger] final(self).builtin(n) == old(self).builtin(n),
            forall|n: Seq<char>| #[trigger] final(self).executable(n) == old(self).executable(n),
    {
        let lines = split_lines(content);
        let mut i: usize = 0;
        let ghost start = self.history_lines();
        while i < lines.len()
            invariant
                i <= lines.len(),
                views(lines@) == lines_of(content@),
                self.history_lines() == start + views(lines@).subrange(0, i as int),
                forall|n: Seq<char>| #[trigger] self.builtin(n) == old(self).builtin(n),
                forall|n: Seq<char>| #[trigger] self.executable(n) == old(self).executable(n),
            decreases lines.len() - i,
        {
            self.add_history_entry(lines[i].as_str());
            assert(views(lines@).subrange(0, i + 1) =~= views(lines@).subrange(0, i as int).push(
                lines@[i as int]@,
            ));
            i = i + 1;
        }
        assert(views(lines@).subrange(0, i as int) =~= views(lines@));
    }

    /// Takes one entry of a directory on the search path: a file with any
    /// execute permission bit set in `mode` is registered under its name,
    /// with the path `dir/name`, unless the name already has a path.
    pub fn register_scanned(&mut self, dir: &str, file_name: &str, mode: u32)
        ensures
            mode & 0o111 == 0 ==> forall|n: Seq<char>| #[trigger] final(self).executable(n)
                == old(self).executable(n),
            mode & 0o111 != 0 ==> final(self).executable(file_name@) == match old(self).executable(
                file_name@,
            ) {
                Some(p) => Some(p),
                None => Some(dir@.push('/') + file_name@),
            },
            forall|n: Seq<char>| n != file_name@ ==> #[trigger] final(self).executable(n) == old(
                self,
            ).executable(n),
            forall|n: Seq<char>| #[trigger] final(self).builtin(n) == old(self).builtin(n),
            final(self).history_lines() == old(self).history_lines(),
    {
        if mode & 0o111 == 0 {
            return;
        }
        let mut path = String::new();
        append_text(&mut path, dir);
        push_char(&mut path, '/');
        append_text(&mut path, file_name);
        assert(path@ =~= dir@.push('/') + file_name@);
        self.register_executable(file_name, path.as_str());
    }

    /// Every name that the shell can run, sorted, each once.
    pub fn get_command_names(&self) -> (r: Vec<String>)
        ensures
            strictly_sorted(views(r@)),
            forall|n: Seq<char>| views(r@).contains(n) <==> self.known_names().contains(n),
            forall|n: Seq<char>|
                views(r@).contains(n) <==> (self.builtin(n) is Some || self.executable(n) is Some),
    {
        let mut r: Vec<String> = Vec::new();
        let mut i: usize = 0;
        assert(views(r@) =~= Seq::<Seq<char>>::empty());
        while i < self.builtins.len()
            invariant
                i <= self.builtins.len(),
                strictly_sorted(views(r@)),
                forall|n: Seq<char>|
                    views(r@).contains(n) <==> exists|j: int|
                        0 <= j < i && builtin_name(#[trigger] self.builtins@[j]) == n,
            decreases self.builtins.len() - i,
        {
            let c = self.builtins[i];
            let name = c.get_name().to_owned();
            insert_sorted(&mut r, name);
            assert forall|n: Seq<char>|
                views(r@).contains(n) <==> exists|j: int|
                    0 <= j < i + 1 && builtin_name(#[trigger] self.builtins@[j]) == n by {
                if n == builtin_name(c) {
                    assert(builtin_name(self.builtins@[i as int]) == n);
                }
            }
            i = i + 1;
        }
        let ghost entries = entry_views(self.executables@);
        let mut k: usize = 0;
        while k < self.executables.len()
            invariant
                i == self.builtins.len(),
                k <= self.executables.len(),
                entries == entry_views(self.executables@),
                strictly_sorted(views(r@)),
                forall|n: Seq<char>|
                    views(r@).contains(n) <==> (exists|j: int|
                        0 <= j < i && builtin_name(#[trigger] self.builtins@[j]) == n) || exists|
                        j: int,
                    |
                        0 <= j < k && (#[trigger] entries[j]).0 == n,
            decreases self.executables.len() - k,
        {
            let name = self.executables[k].0.clone();
            insert_sorted(&mut r, name);
            assert forall|n: Seq<char>|
                views(r@).contains(n) <==> (exists|j: int|
                    0 <= j < i && builtin_name(#[trigger] self.builtins@[j]) == n) || exists|j: int|
                    0 <= j < k + 1 && (#[trigger] entries[j]).0 == n by {
                if n == entries[k as int].0 {
                    assert(0 <= k < k + 1);
                }
            }
            k = k + 1;
        }
        assert forall|n: Seq<char>| views(r@).contains(n) <==> self.known_names().contains(n) by {
            lemma_first_path_found(entries, n);
            if exists|j: int| 0 <= j < i && builtin_name(#[trigger] self.builtins@[j]) == n {
                let j = choose|j: int| 0 <= j < i && builtin_name(#[trigger] self.builtins@[j]) == n;
                assert(self.builtins@.contains(self.builtins@[j]));
            }
            if self.builtin(n) is Some {
                let c = choose|c: Command| self.builtins@.contains(c) && builtin_name(c) == n;
                let j = choose|j: int| 0 <= j < self.builtins@.len() && self.builtins@[j] == c;
                assert(builtin_name(self.builtins@[j]) == n);
            }
        }
        assert forall|n: Seq<char>|
            views(r@).contains(n) <==> (self.builtin(n) is Some || self.executable(n) is Some) by {
            assert(self.known_names().contains(n) == (self.builtin(n) is Some || self.executable(n) is Some));
        }
        r
    }

}


/// The text of a history file: each line followed by a newline.
pub open spec fn history_file_text(h: Seq<Seq<char>>) -> Seq<char>
    decreases h.len(),
{
    if h.len() == 0 {
        seq![]
    } else {
        (history_file_text(h.drop_last()) + h.last()).push('\n')
    }
}

/// A line without the carriage return that ends it, if any.
pub open spec fn strip_cr(l: Seq<char>) -> Seq<char> {
    if l.len() > 0 && l.last() == '\r' {
        l.drop_last()
    } else {
        l
    }
}

/// After the first `n` characters: the lines ended so far, and the one begun.
pub open spec fn lines_prefix(s: Seq<char>, n: nat) -> (Seq<Seq<char>>, Seq<char>)
    decreases n,
{
    if n == 0 {
        (seq![], seq![])
    } else {
        let (done, cur) = lines_prefix(s, (n - 1) as nat);
        if s[n - 1] == '\n' {
            (done.push(strip_cr(cur)), seq![])
        } else {
            (done, cur.push(s[n - 1]))
        }
    }
}

/// The lines of a text, as `str::lines` gives them: cut at each `\n` or
/// `\r\n`, with no empty line after a final line ending.
pub open spec fn lines_of(s: Seq<char>) -> Seq<Seq<char>> {
    let (done, cur) = lines_prefix(s, s.len());
    if cur.len() > 0 {
        done.push(cur)
    } else {
        done
    }
}

/// Cuts a text into lines.
pub fn split_lines(s: &str) -> (r: Vec<String>)
    ensures
        views(r@) == lines_of(s@),
{
    let n = s.unicode_len();
    let mut done: Vec<String> = Vec::new();
    let mut cur = String::new();
    let mut i: usize = 0;
    assert(views(done@) =~= Seq::<Seq<char>>::empty());
    while i < n
        invariant
            n == s@.len(),
            i <= n,
            lines_prefix(s@, i as nat) == (views(done@), cur@),
        decreases n - i,
    {
        let c = s.get_char(i);
        if c == '\n' {
            let ghost prev = done@;
            let m = cur.as_str().unicode_len();
            let line = if m > 0 && cur.as_str().get_char(m - 1) == '\r' {
                cur.as_str().substring_char(0, m - 1).to_owned()
            } else {
                cur
            };
            assert(line@ == strip_cr(cur@));
            done.push(line);
            assert(views(done@) =~= views(prev).push(line@));
            cur = String::new();
        } else {
            push_char(&mut cur, c);
        }
        i = i + 1;
    }
    if cur.as_str().unicode_len() > 0 {
        let ghost prev = done@;
        let ghost last = cur@;
        done.push(cur);
        assert(views(done@) =~= views(prev).push(last));
    }
    done
}


impl Default for CommandRegistry {
    /// A registry that holds every builtin, and no executable yet.
    fn default() -> (r: Self)
        ensures
            forall|c: Command| #[trigger] r.builtin(builtin_name(c)) == Some(c),
            forall|n: Seq<char>| r.executable(n) is None,
            r.history_lines() == Seq::<Seq<char>>::empty(),
    {
        CommandRegistry::with_builtins()
    }
}

/// After the first `n` characters: the parts ended so far, and the one begun.
pub open spec fn parts_prefix(s: Seq<char>, n: nat) -> (Seq<Seq<char>>, Seq<char>)
    decreases n,
{
    if n == 0 {
        (seq![], seq![])
    } else {
        let (done, cur) = parts_prefix(s, (n - 1) as nat);
        if s[n - 1] == ':' {
            (done.push(cur), seq![])
        } else {
            (done, cur.push(s[n - 1]))
        }
    }
}

/// The directories that a search path names: its parts between colons,
/// empty ones included, as `str::split` gives them.
pub open spec fn search_dirs(s: Seq<char>) -> Seq<Seq<char>> {
    let (done, cur) = parts_prefix(s, s.len());
    done.push(cur)
}

/// Cuts a search path at its colons.
pub fn split_search_path(path_var: &str) -> (r: Vec<String>)
    ensures
        views(r@) == search_dirs(path_var@),
{
    let n = path_var.unicode_len();
    let mut done: Vec<String> = Vec::new();
    let mut cur = String::new();
    let mut i: usize = 0;
    assert(views(done@) =~= Seq::<Seq<char>>::empty());
    while i < n
        invariant
            n == path_var@.len(),
            i <= n,
            parts_prefix(path_var@, i as nat) == (views(done@), cur@),
        decreases n - i,
    {
        let c = path_var.get_char(i);
        if c == ':' {
            let ghost prev = done@;
            let ghost part = cur@;
            done.push(cur);
            assert(views(done@) =~= views(prev).push(part));
            cur = String::new();
        } else {
            push_char(&mut cur, c);
        }
        i = i + 1;
    }
    let ghost prev = done@;
    let ghost part = cur@;
    done.push(cur);
    assert(views(done@) =~= views(prev).push(part));
    done
}


/// The builtin that a name resolves to is the one with that name.
pub proof fn lemma_builtin_has_its_name(registry: CommandRegistry, name: Seq<char>)
    ensures
        registry.builtin(name) is Some ==> builtin_name(registry.builtin(name)->Some_0) == name,
{
}

/// A name has a path exactly when some entry carries it.
proof fn lemma_first_path_found(entries: Seq<(Seq<char>, Seq<char>)>, name: Seq<char>)
    ensures
        first_path(entries, name) is Some <==> exists|j: int|
            0 <= j < entries.len() && (#[trigger] entries[j]).0 == name,
    decreases entries.len(),
{
    if entries.len() > 0 {
        let rest = entries.drop_last();
        lemma_first_path_found(rest, name);
        if exists|j: int| 0 <= j < rest.len() && (#[trigger] rest[j]).0 == name {
            let j = choose|j: int| 0 <= j < rest.len() && (#[trigger] rest[j]).0 == name;
            assert(entries[j] == rest[j]);
        }
        if exists|j: int| 0 <= j < entries.len() && (#[trigger] entries[j]).0 == name {
            let j = choose|j: int| 0 <= j < entries.len() && (#[trigger] entries[j]).0 == name;
            if j < rest.len() {
                assert(rest[j] == entries[j]);
            }
        }
    }
}

/// Puts `x` in its place in a sorted vector, unless it is there already.
fn insert_sorted(v: &mut Vec<String>, x: String)
    requires
        strictly_sorted(views(old(v)@)),
    ensures
        strictly_sorted(views(final(v)@)),
        forall|n: Seq<char>| views(final(v)@).contains(n) <==> (views(old(v)@).contains(n) || n == x@),
{
    let ghost old_views = views(v@);
    let mut p: usize = 0;
    while p < v.len() && text_less(v[p].as_str(), x.as_str())
        invariant
            p <= v.len(),
            views(v@) == old_views,
            forall|i: int| 0 <= i < p ==> text_lt(#[trigger] old_views[i], x@),
        decreases v.len() - p,
    {
        p = p + 1;
    }
    if p < v.len() && same_text(v[p].as_str(), x.as_str()) {
        assert(old_views[p as int] == x@);
        return;
    }
    let ghost xv = x@;
    if p < v.len() {
        proof {
            lemma_text_lt_total(old_views[p as int], xv);
        }
    }
    v.insert(p, x);
    let ghost nv = views(v@);
    assert(nv =~= old_views.insert(p as int, xv));
    assert forall|i: int, j: int| 0 <= i < j < nv.len() implies text_lt(#[trigger] nv[i], #[trigger] nv[j]) by {
        if i < p && j == p {
        } else if i < p && j > p {
            assert(text_lt(old_views[i], old_views[j - 1]));
        } else if i == p {
            assert(text_lt(xv, old_views[p as int]));
            if j - 1 > p {
                assert(text_lt(old_views[p as int], old_views[j - 1]));
                lemma_text_lt_transitive(xv, old_views[p as int], old_views[j - 1], 0);
            }
        } else if i > p {
            assert(text_lt(old_views[i - 1], old_views[j - 1]));
        } else {
            assert(text_lt(old_views[i], old_views[j]));
        }
    }
    assert forall|n: Seq<char>| nv.contains(n) <==> (old_views.contains(n) || n == xv) by {
        if nv.contains(n) {
            let i = choose|i: int| 0 <= i < nv.len() && nv[i] == n;
            if i < p {
                assert(old_views[i] == n);
            } else if i > p {
                assert(old_views[i - 1] == n);
            }
        }
        if old_views.contains(n) {
            let i = choose|i: int| 0 <= i < old_views.len() && old_views[i] == n;
            if i < p {
                assert(nv[i] == n);
            } else {
                assert(nv[i + 1] == n);
            }
        }
        if n == xv {
            assert(nv[p as int] == n);
        }
    }
}


/// The paths at which a search of the directories `dirs` looks for `name`,
/// in order: `dir/name` for each.
pub open spec fn candidate_paths(dirs: Seq<Seq<char>>, name: Seq<char>) -> Seq<Seq<char>> {
    dirs.map_values(|d: Seq<char>| d.push('/') + name)
}

/// The paths at which the search path `path_var` is searched for `name`.
pub fn path_candidates(path_var: &str, name: &str) -> (r: Vec<String>)
    ensures
        views(r@) == candidate_paths(search_dirs(path_var@), name@),
{
    let dirs = split_search_path(path_var);
    let ghost dv = views(dirs@);
    let mut r: Vec<String> = Vec::new();
    let mut i: usize = 0;
    assert(views(r@) =~= candidate_paths(dv.subrange(0, 0), name@));
    while i < dirs.len()
        invariant
            i <= dirs.len(),
            dv == views(dirs@),
            views(r@) == candidate_paths(dv.subrange(0, i as int), name@),
        decreases dirs.len() - i,
    {
        let ghost prev = r@;
        let mut path = String::new();
        append_text(&mut path, dirs[i].as_str());
        push_char(&mut path, '/');
        append_text(&mut path, name);
        assert(path@ =~= dv[i as int].push('/') + name@);
        let ghost pv = path@;
        r.push(path);
        assert(views(r@) =~= views(prev).push(pv));
        assert(views(r@) =~= candidate_paths(dv.subrange(0, i + 1), name@));
        i = i + 1;
    }
    assert(dv.subrange(0, i as int) =~= dv);
    r
}

/// Whether a file's permission bits give anyone the right to execute it.
pub open spec fn is_executable_mode(mode: Option<u32>) -> bool {
    mode is Some && mode->Some_0 & 0o111 != 0
}

/// The first of `paths` whose mode (`None` where the file could not be
/// examined) has an execute bit.
pub open spec fn first_executable_path(paths: Seq<Seq<char>>, modes: Seq<Option<u32>>) -> Option<
    Seq<char>,
>
    decreases paths.len(),
{
    if paths.len() == 0 {
        None
    } else if is_executable_mode(modes[0]) {
        Some(paths[0])
    } else {
        first_executable_path(paths.drop_first(), modes.drop_first())
    }
}

/// Picks, among candidate paths and their modes, the first executable one.
pub fn first_executable(paths: &Vec<String>, modes: &Vec<Option<u32>>) -> (r: Option<String>)
    requires
        paths.len() == modes.len(),
    ensures
        opt_view(r) == first_executable_path(views(paths@), modes@),
{
    let mut i: usize = 0;
    assert(views(paths@).subrange(0, paths.len() as int) =~= views(paths@));
    assert(modes@.subrange(0, modes.len() as int) =~= modes@);
    while i < paths.len()
        invariant
            i <= paths.len(),
            paths.len() == modes.len(),
            first_executable_path(views(paths@), modes@) == first_executable_path(
                views(paths@).subrange(i as int, paths.len() as int),
                modes@.subrange(i as int, modes.len() as int),
            ),
        decreases paths.len() - i,
    {
        let ghost ps = views(paths@).subrange(i as int, paths.len() as int);
        let ghost ms = modes@.subrange(i as int, modes.len() as int);
        assert(ps.drop_first() =~= views(paths@).subrange(i + 1, paths.len() as int));
        assert(ms.drop_first() =~= modes@.subrange(i + 1, modes.len() as int));
        assert(ms[0] == modes@[i as int]);
        assert(ps[0] == paths@[i as int]@);
        if let Some(mode) = modes[i] {
            if mode & 0o111 != 0 {
                return Some(paths[i].clone());
            }
        }
        i = i + 1;
    }
    None
}

} // verus!
