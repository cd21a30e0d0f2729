//! Session-stable facts for the system prompt: what the session is — the
//! connections in scope and whether a workspace root is bound — never what
//! the model may do. The same inputs give byte-identical text.

use vstd::prelude::*;

use crate::system_prompt::join;
use crate::text::push_str;

verus! {

/// Heading for the session-facts section.
pub const SESSION_FACTS_HEADING: &'static str = "Session facts";

/// The line naming one connection and its engine.
pub open spec fn database_line(name: Seq<char>, engine: Seq<char>) -> Seq<char> {
    "- Database `"@ + name + "` ("@ + engine + ")."@
}

/// The lines of the session-facts section.
pub open spec fn fact_lines(
    connections: Seq<(Seq<char>, Seq<char>)>,
    workspace_root: Option<Seq<char>>,
) -> Seq<Seq<char>> {
    seq![SESSION_FACTS_HEADING@] + connections.map_values(
        |c: (Seq<char>, Seq<char>)| database_line(c.0, c.1),
    ) + (match workspace_root {
        Some(root) => seq!["- Workspace root: "@ + root + "."@],
        None => if connections.len() > 0 {
            seq!["- No workspace is bound."@]
        } else {
            Seq::empty()
        },
    }) + (if connections.len() == 0 && workspace_root is Some {
        seq!["- No database is connected."@]
    } else {
        Seq::empty()
    })
}

/// What `session_facts_text` renders: `None` when the session binds neither
/// a connection nor a workspace root — no empty heading.
pub open spec fn spec_session_facts(
    connections: Seq<(Seq<char>, Seq<char>)>,
    workspace_root: Option<Seq<char>>,
) -> Option<Seq<char>> {
    if connections.len() == 0 && workspace_root is None {
        None
    } else {
        Some(join(fact_lines(connections, workspace_root), "\n"@))
    }
}

/// Renders the session-facts section from the connections in scope (name
/// and engine, in registry order) and the bound workspace root as
/// displayed. It names no tool and no permission.
pub fn session_facts_text(connections: &[(String, String)], workspace_root: Option<&str>) -> (r:
    Option<String>)
    ensures
        match r {
            Some(t) => spec_session_facts(
                connections@.map_values(|c: (String, String)| (c.0@, c.1@)),
                match workspace_root {
                    Some(w) => Some(w@),
                    None => None,
                },
            ) == Some(t@),
            None => spec_session_facts(
                connections@.map_values(|c: (String, String)| (c.0@, c.1@)),
                match workspace_root {
                    Some(w) => Some(w@),
                    None => None,
                },
            ) is None,
        },
{
    let ghost cv = connections@.map_values(|c: (String, String)| (c.0@, c.1@));
    let ghost rv = match workspace_root {
        Some(w) => Some(w@),
        None => None,
    };
    let mut lines: Vec<String> = Vec::new();
    lines.push(SESSION_FACTS_HEADING.to_owned());
    let mut has_facts = false;
    let mut i: usize = 0;
    while i < connections.len()
        invariant
            i <= connections.len(),
            cv == connections@.map_values(|c: (String, String)| (c.0@, c.1@)),
            lines@.map_values(|p: String| p@) =~= seq![SESSION_FACTS_HEADING@] + cv.take(
                i as int,
            ).map_values(|c: (Seq<char>, Seq<char>)| database_line(c.0, c.1)),
            has_facts == (i > 0),
        decreases connections.len() - i,
    {
        let mut line = "- Database `".to_owned();
        push_str(&mut line, connections[i].0.as_str());
        push_str(&mut line, "` (");
        push_str(&mut line, connections[i].1.as_str());
        push_str(&mut line, ").");
        assert(line@ == database_line(cv[i as int].0, cv[i as int].1));
        let ghost before = lines@;
        lines.push(line);
        assert(lines@.map_values(|p: String| p@) =~= before.map_values(|p: String| p@).push(line@));
        assert(cv.take(i as int + 1) =~= cv.take(i as int).push(cv[i as int]));
        assert(cv.take(i as int + 1).map_values(|c: (Seq<char>, Seq<char>)| database_line(c.0, c.1))
            =~= cv.take(i as int).map_values(|c: (Seq<char>, Seq<char>)| database_line(c.0, c.1)).push(
            database_line(cv[i as int].0, cv[i as int].1),
        ));
        has_facts = true;
        i += 1;
    }
    assert(cv.take(connections.len() as int) =~= cv);
    let ghost with_dbs = lines@.map_values(|p: String| p@);
    match workspace_root {
        Some(root) => {
            let mut line = "- Workspace root: ".to_owned();
            push_str(&mut line, root);
            push_str(&mut line, ".");
            lines.push(line);
            has_facts = true;
        },
        None => {
            if connections.len() > 0 {
                lines.push("- No workspace is bound.".to_owned());
                has_facts = true;
            }
        },
    }
    if connections.len() == 0 && workspace_root.is_some() {
        lines.push("- No database is connected.".to_owned());
    }
    assert(lines@.map_values(|p: String| p@) =~= fact_lines(cv, rv));
    if has_facts {
        Some(crate::system_prompt::join_lines(lines.as_slice(), "\n"))
    } else {
        None
    }
}

} // verus!
