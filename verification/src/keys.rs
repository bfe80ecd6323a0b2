use vstd::prelude::*;
use crate::config::{
    Action, dir_jump_table, dir_jumps, file_rule_table, file_rules, keybind_table, keybinds,
};
use crate::text::{
    chars_of, contains, contains_exec, ends_with, ends_with_exec, starts_with, starts_with_exec,
};

verus! {

/// The action of the first binding of `key` in a table of bindings.
pub open spec fn lookup_key(t: Seq<(u8, Action)>, key: u8) -> Option<Action>
    decreases t.len(),
{
    if t.len() == 0 {
        None
    } else if t[0].0 == key {
        Some(t[0].1)
    } else {
        lookup_key(t.drop_first(), key)
    }
}

/// `key` leads to some directory jump.
pub open spec fn is_jump_key(key: u8) -> bool {
    exists|i: int| 0 <= i < dir_jump_table().len() && #[trigger] dir_jump_table()[i].0 == key
}

/// The action of the third byte of an `ESC [` sequence: the arrow keys,
/// Home and End.
pub open spec fn arrow_action(k: u8) -> Option<Action> {
    if k == 65 {
        Some(Action::Previous)
    } else if k == 66 {
        Some(Action::Next)
    } else if k == 67 {
        Some(Action::Enter)
    } else if k == 68 {
        Some(Action::Back)
    } else if k == 72 {
        Some(Action::Home)
    } else if k == 70 {
        Some(Action::End)
    } else {
        None
    }
}

/// The action that the bytes read for one key press ask for: an `ESC [`
/// sequence of three bytes by its last byte; a single byte by the first
/// binding of it, or else by a directory jump on it; anything else none.
pub open spec fn key_action(keys: Seq<u8>) -> Option<Action> {
    if keys.len() == 3 && keys[0] == 27 && keys[1] == 91 {
        arrow_action(keys[2])
    } else if keys.len() == 1 {
        match lookup_key(keybind_table(), keys[0]) {
            Some(a) => Some(a),
            None => if is_jump_key(keys[0]) {
                Some(Action::Jump(keys[0]))
            } else {
                None
            },
        }
    } else {
        None
    }
}

/// The action of the bytes read for one key press (see `key_action`).
pub fn keys_to_action(keys: &[u8]) -> (r: Option<Action>)
    ensures
        r == key_action(keys@),
{
    if keys.len() == 3 && keys[0] == 27 && keys[1] == 91 {
        let k = keys[2];
        return if k == 65 {
            Some(Action::Previous)
        } else if k == 66 {
            Some(Action::Next)
        } else if k == 67 {
            Some(Action::Enter)
        } else if k == 68 {
            Some(Action::Back)
        } else if k == 72 {
            Some(Action::Home)
        } else if k == 70 {
            Some(Action::End)
        } else {
            None
        };
    }
    if keys.len() == 1 {
        let key = keys[0];
        let binds = keybinds();
        let mut i: usize = 0;
        proof {
            assert(binds@.skip(0) =~= binds@);
        }
        while i < binds.len()
            invariant
                keys@.len() == 1,
                key == keys@[0],
                binds@ == keybind_table(),
                i <= binds@.len(),
                lookup_key(keybind_table(), key) == lookup_key(binds@.skip(i as int), key),
            decreases binds@.len() - i,
        {
            proof {
                assert(binds@.skip(i as int).drop_first() =~= binds@.skip(i + 1));
            }
            if binds[i].0 == key {
                return Some(binds[i].1);
            }
            i = i + 1;
        }
        proof {
            assert(binds@.skip(i as int) =~= Seq::<(u8, Action)>::empty());
        }
        let jumps = dir_jumps();
        let mut j: usize = 0;
        while j < jumps.len()
            invariant
                keys@.len() == 1,
                key == keys@[0],
                lookup_key(keybind_table(), key) is None,
                jumps@ == dir_jump_table(),
                j <= jumps@.len(),
                forall|m: int| 0 <= m < j ==> jumps@[m].0 != key,
            decreases jumps@.len() - j,
        {
            if jumps[j].0 == key {
                proof {
                    assert(dir_jump_table()[j as int].0 == key);
                }
                return Some(Action::Jump(key));
            }
            j = j + 1;
        }
        return None;
    }
    None
}

/// The action of the key `second` pressed after the pending key `first`:
/// `gg` goes to the first entry, `g` or `'` then any other key jumps to the
/// directory of that key, `DD` deletes, `nf` makes a file and `nd` a
/// directory.
pub open spec fn combo_action(first: u8, second: u8) -> Option<Action> {
    if first == 103 && second == 103 {
        Some(Action::Home)
    } else if first == 103 || first == 39 {
        Some(Action::Jump(second))
    } else if first == 68 && second == 68 {
        Some(Action::Delete)
    } else if first == 110 && second == 102 {
        Some(Action::MakeFile)
    } else if first == 110 && second == 100 {
        Some(Action::MakeDir)
    } else {
        None
    }
}

/// The action of the key `second` pressed after the pending key `first`
/// (see `combo_action`).
pub fn handle_two_key_combo(first: u8, second: u8) -> (r: Option<Action>)
    ensures
        r == combo_action(first, second),
{
    if first == 103 && second == 103 {
        Some(Action::Home)
    } else if first == 103 || first == 39 {
        Some(Action::Jump(second))
    } else if first == 68 && second == 68 {
        Some(Action::Delete)
    } else if first == 110 && second == 102 {
        Some(Action::MakeFile)
    } else if first == 110 && second == 100 {
        Some(Action::MakeDir)
    } else {
        None
    }
}

/// Whether a file-rule pattern matches a path: a pattern `\.ext$` matches a
/// path that ends with `.ext`; any other pattern matches a path that holds
/// it.
pub open spec fn pattern_matches(pattern: Seq<char>, text: Seq<char>) -> bool {
    if starts_with(pattern, seq!['\\', '.']) && ends_with(pattern, seq!['$']) {
        ends_with(text, seq!['.'] + pattern.subrange(2, pattern.len() - 1))
    } else {
        contains(text, pattern)
    }
}

/// Whether the file-rule `pattern` matches `text` (see `pattern_matches`).
pub fn simple_match(pattern: &str, text: &str) -> (r: bool)
    ensures
        r == pattern_matches(pattern@, text@),
{
    let p = chars_of(pattern);
    let t = chars_of(text);
    let prefix: Vec<char> = vec!['\\', '.'];
    let dollar: Vec<char> = vec!['$'];
    assert(prefix@ =~= seq!['\\', '.']);
    assert(dollar@ =~= seq!['$']);
    if starts_with_exec(&p, &prefix) && ends_with_exec(&p, &dollar) {
        let mut suffix: Vec<char> = Vec::new();
        suffix.push('.');
        proof {
            assert(p@.take(2)[1] == '.');
            assert(p@.skip(p@.len() - 1)[0] == '$');
            assert(p@.len() >= 3);
            assert(suffix@ =~= seq!['.'] + p@.subrange(2, 2));
        }
        let end = p.len() - 1;
        let mut i: usize = 2;
        while i < end
            invariant
                2 <= i <= end,
                end == p@.len() - 1,
                suffix@ == seq!['.'] + p@.subrange(2, i as int),
            decreases end - i,
        {
            suffix.push(p[i]);
            i = i + 1;
            proof {
                assert(seq!['.'] + p@.subrange(2, i as int) =~= (seq!['.'] + p@.subrange(2, i - 1)).push(p@[i - 1]));
            }
        }
        proof {
            assert(suffix@ =~= seq!['.'] + p@.subrange(2, p@.len() - 1));
        }
        ends_with_exec(&t, &suffix)
    } else {
        contains_exec(&t, &p)
    }
}

/// The command of the first file rule whose pattern matches `name`.
pub open spec fn first_rule(rules: Seq<(&'static str, &'static str)>, name: Seq<char>) -> Option<
    &'static str,
>
    decreases rules.len(),
{
    if rules.len() == 0 {
        None
    } else if pattern_matches(rules[0].0@, name) {
        Some(rules[0].1)
    } else {
        first_rule(rules.drop_first(), name)
    }
}

/// The command that opens the file at path `name`: that of the first file
/// rule that matches it, or none, and then the pager opens it.
pub fn file_command(name: &str) -> (r: Option<&'static str>)
    ensures
        r == first_rule(file_rule_table(), name@),
{
    let rules = file_rules();
    let mut i: usize = 0;
    proof {
        assert(rules@.skip(0) =~= rules@);
    }
    while i < rules.len()
        invariant
            rules@ == file_rule_table(),
            i <= rules@.len(),
            first_rule(file_rule_table(), name@) == first_rule(rules@.skip(i as int), name@),
        decreases rules@.len() - i,
    {
        proof {
            assert(rules@.skip(i as int).drop_first() =~= rules@.skip(i + 1));
        }
        if simple_match(rules[i].0, name) {
            return Some(rules[i].1);
        }
        i = i + 1;
    }
    None
}

} // verus!
