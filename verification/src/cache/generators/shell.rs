use vstd::prelude::*;
use vstd::string::*;
use crate::cache::generators::CacheGenerator;
use crate::cache::{Cache, CacheEntry};
use crate::error::Error;
use crate::text::name_list;
use crate::text::order::{in_order, sorted_names};

verus! {

/// The cache as a file for a shell to source.
pub struct ShellCacheGenerator;

/// What stands before the values.
pub open spec fn shell_header() -> Seq<char> {
    "#!/bin/bash\n# Auto-generated by dotgk sync\n# Do not edit manually\n# Source this file to get gatekeeper functions\n\n# Gatekeeper values stored in associative array\ndeclare -A _DOTGK_VALUES=(\n"@
}

/// What stands after the values.
pub open spec fn shell_footer() -> Seq<char> {
    ")\n\n# Helper function to check gatekeeper values\ndotgk_check() {\n  local name=\"$1\"\n  local value=\"${_DOTGK_VALUES[$name]:-false}\"\n  [[ \"$value\" == \"true\" ]]\n}\n"@
}

/// The line that gives one value.
pub open spec fn shell_line(name: Seq<char>, value: bool) -> Seq<char> {
    "  [\""@ + name + "\"]=\""@ + (if value {
        "true"@
    } else {
        "false"@
    }) + "\"\n"@
}

/// The lines for `names`, in that order.
pub open spec fn shell_lines(names: Seq<Seq<char>>, entries: Map<Seq<char>, CacheEntry>) -> Seq<
    char,
>
    decreases names.len(),
{
    if names.len() == 0 {
        Seq::empty()
    } else {
        shell_lines(names.drop_last(), entries) + shell_line(
            names.last(),
            entries[names.last()].value,
        )
    }
}

impl CacheGenerator for ShellCacheGenerator {
    open spec fn format_name(&self) -> Seq<char> {
        "shell"@
    }

    open spec fn format_extension(&self) -> Seq<char> {
        "sh"@
    }

    /// This format can always be written.
    open spec fn generates(&self, entries: Map<Seq<char>, CacheEntry>) -> bool {
        true
    }

    /// An associative array with one line for each name, the names in
    /// order, and a function that looks a name up in it.
    open spec fn content(&self, entries: Map<Seq<char>, CacheEntry>) -> Seq<char> {
        shell_header() + shell_lines(in_order(entries.dom()), entries) + shell_footer()
    }

    fn name(&self) -> (name: &'static str) {
        "shell"
    }

    fn file_extension(&self) -> (extension: &'static str) {
        "sh"
    }

    fn generate_content(&self, cache: &Cache) -> (text: Result<String, Error>)
        ensures
            text is Ok,
    {
        let names = sorted_names(&cache.cache.names());
        proof {
            cache.cache.lemma_keys_are_domain();
        }
        let ghost order = name_list(names@);
        let mut content = String::from_str(
            "#!/bin/bash\n# Auto-generated by dotgk sync\n# Do not edit manually\n# Source this file to get gatekeeper functions\n\n# Gatekeeper values stored in associative array\ndeclare -A _DOTGK_VALUES=(\n",
        );
        let mut i: usize = 0;
        while i < names.len()
            invariant
                cache.wf(),
                i <= names@.len(),
                order == name_list(names@),
                forall|k: Seq<char>| #[trigger] order.contains(k) ==> cache.cache@.contains_key(k),
                content@ == shell_header() + shell_lines(order.take(i as int), cache.cache@),
            decreases names@.len() - i,
        {
            let ghost before = content@;
            proof {
                assert(order.take(i as int + 1).drop_last() =~= order.take(i as int));
                assert(order.take(i as int + 1).last() == names@[i as int]@);
                assert(order.contains(order[i as int]));
            }
            let value = match cache.cache.get(names[i].as_str()) {
                Some(entry) => entry.value,
                None => false,
            };
            content.append("  [\"");
            content.append(names[i].as_str());
            content.append("\"]=\"");
            if value {
                content.append("true");
            } else {
                content.append("false");
            }
            content.append("\"\n");
            assert(content@ =~= before + shell_line(names@[i as int]@, value));
            assert(content@ =~= shell_header() + shell_lines(
                order.take(i as int + 1),
                cache.cache@,
            ));
            i += 1;
        }
        assert(order.take(names@.len() as int) =~= order);
        content.append(
            ")\n\n# Helper function to check gatekeeper values\ndotgk_check() {\n  local name=\"$1\"\n  local value=\"${_DOTGK_VALUES[$name]:-false}\"\n  [[ \"$value\" == \"true\" ]]\n}\n",
        );
        Ok(content)
    }
}

} // verus!
