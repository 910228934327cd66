//! The `gv` shell function that `grove init` prints.
use vstd::prelude::*;
use crate::config::Shell;

verus! {

/// The `gv` function for zsh and bash.
pub const ZSH_BASH_FUNCTION: &'static str = r#"# Grove shell integration
# Add to your .zshrc or .bashrc:
#   eval "$(grove init zsh)"

gv() {
  if [ $# -eq 0 ]; then
    grove open
  else
    case "$1" in
      -l) grove session list ;;
      -c) shift; grove tree close "$@" ;;
      *)  grove open "$@" ;;
    esac
  fi
}
"#;

/// The `gv` function for fish.
pub const FISH_FUNCTION: &'static str = r#"# Grove shell integration
# Add to your config.fish:
#   grove init fish | source

function gv
    if test (count $argv) -eq 0
        grove open
    else
        switch $argv[1]
            case -l
                grove session list
            case -c
                grove tree close $argv[2..]
            case '*'
                grove open $argv
        end
    end
end
"#;

/// The zsh/bash integration script.
pub fn zsh_bash_function() -> (r: &'static str)
    ensures
        r@ == ZSH_BASH_FUNCTION@,
{
    ZSH_BASH_FUNCTION
}

/// The fish integration script.
pub fn fish_function() -> (r: &'static str)
    ensures
        r@ == FISH_FUNCTION@,
{
    FISH_FUNCTION
}

/// The integration script for `shell`: zsh and bash share one.
pub fn init_script(shell: Shell) -> (r: &'static str)
    ensures
        r@ == (match shell {
            Shell::Fish => FISH_FUNCTION@,
            _ => ZSH_BASH_FUNCTION@,
        }),
{
    match shell {
        Shell::Zsh | Shell::Bash => zsh_bash_function(),
        Shell::Fish => fish_function(),
    }
}

} // verus!
