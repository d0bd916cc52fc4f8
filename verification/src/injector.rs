//! PowerShell hook injection for automatic environment switching.
//!
//! The hook script that follows the current directory and switches the
//! environment variables, and the changes made to the PowerShell profile to
//! load it or to stop loading it.

use vstd::prelude::*;
use crate::config::{opt_view, Config};
use crate::paths::{
    document_dir, has_verbatim_prefix, is_joined, is_plain_path, is_suffix_of, join_path,
    lemma_suffix_takes_separator, takes_separator,
};
use crate::text::{
    chars_of, contains, contains_seq, is_prefix_of, lines, lines_of, replace_char,
    replace_char_with, starts_with, string_of, trim, trim_ws,
};

verus! {

broadcast use vstd::string::group_string_axioms;

/// The hook script up to the configuration path.
pub const HOOK_SCRIPT_HEAD: &'static str = r#"# Env Switcher Hook - Auto-generated
# This script is automatically loaded by your PowerShell profile
# and handles environment variable switching based on current directory.

$EnvSwitcherConfigPath = ""#;

/// The hook script between the configuration path and the data directory.
pub const HOOK_SCRIPT_MIDDLE: &'static str = r#""
$EnvSwitcherDataDir = ""#;

/// The hook script after the data directory.
pub const HOOK_SCRIPT_TAIL: &'static str = r#""

# Environment state tracking
$script:CurrentEnvPath = $null
$script:CurrentNodeHome = $null
$script:CurrentJavaHome = $null

# Cache file for match results (optional optimization)
$EnvSwitcherCacheFile = Join-Path $EnvSwitcherDataDir "cache.json"

function Find-PathMapping {
    param(
        [string]$targetPath,
        [string]$configPath
    )

    if (-not (Test-Path $configPath)) {
        return $null
    }

    try {
        $config = Get-Content $configPath -Raw | ConvertFrom-Json
        $targetNormalized = $targetPath.ToLower().Replace('/', '\')

        $bestMatch = $null
        $bestPrefixLen = 0

        foreach ($mapping in $config.path_mappings) {
            $mappingNormalized = $mapping.path.ToLower().Replace('/', '\')

            # Exact match
            if ($mappingNormalized -eq $targetNormalized) {
                $bestMatch = $mapping
                break
            }

            # Prefix match (subdirectory inheritance)
            if ($targetNormalized.StartsWith($mappingNormalized + '\')) {
                if ($mappingNormalized.Length -gt $bestPrefixLen) {
                    $bestPrefixLen = $mappingNormalized.Length
                    $bestMatch = $mapping
                }
            }
        }

        return $bestMatch
    }
    catch {
        Write-Warning "EnvSwitcher: Error reading config: $_"
        return $null
    }
}

function Switch-Environment {
    param([string]$targetPath)

    # Skip if path unchanged
    if ($script:CurrentEnvPath -eq $targetPath) {
        return
    }

    # Read config
    $config = Get-Content $EnvSwitcherConfigPath -Raw | ConvertFrom-Json
    $mapping = Find-PathMapping -targetPath $targetPath -configPath $EnvSwitcherConfigPath

    if ($mapping) {
        # Restore original PATH (save before first modification)
        if ($null -eq $script:OriginalPath) {
            $script:OriginalPath = $env:PATH
        }

        # Reset PATH to original
        $env:PATH = $script:OriginalPath

        # Apply Node.js environment
        if ($mapping.node_version) {
            $nodeConfig = $config.node_versions.($mapping.node_version)
            if ($nodeConfig) {
                $nodePath = $nodeConfig.path
                $env:PATH = "$nodePath;$env:PATH"
                $env:NODE_HOME = $nodePath
                $script:CurrentNodeHome = $nodePath

                # Set npm prefix if needed
                $npmPrefix = Join-Path $nodePath "npm"
                if (Test-Path $npmPrefix) {
                    $env:npm_config_prefix = $npmPrefix
                }

                Write-Host "Node: $($mapping.node_version)" -ForegroundColor Green
            }
        }
        else {
            $env:NODE_HOME = $null
            $script:CurrentNodeHome = $null
        }

        # Apply Java environment
        if ($mapping.java_version) {
            $javaConfig = $config.java_versions.($mapping.java_version)
            if ($javaConfig) {
                $javaHome = $javaConfig.path
                $env:JAVA_HOME = $javaHome
                $env:PATH = "$javaHome\bin;$env:PATH"
                $script:CurrentJavaHome = $javaHome

                Write-Host "Java: $($mapping.java_version)" -ForegroundColor Green
            }
        }
        else {
            $env:JAVA_HOME = $null
            $script:CurrentJavaHome = $null
        }

        $script:CurrentEnvPath = $targetPath
    }
    else {
        # No mapping found - restore original environment
        if ($null -ne $script:OriginalPath) {
            $env:PATH = $script:OriginalPath
        }
        $env:NODE_HOME = $null
        $env:JAVA_HOME = $null
        $script:CurrentEnvPath = $targetPath

        Write-Host "Using system environment" -ForegroundColor Gray
    }
}

# Hook into Set-Location (cd command)
# We wrap it rather than replace to preserve existing functionality
$wrappedCmd = Get-Command Set-Location -CommandType Cmdlet

function global:Set-Location {
    param(
        [string]$Path,
        [switch]$PassThru,
        [string]$StackName
    )

    # Execute the actual cd command
    if ($Path) {
        & $wrappedCmd -Path $Path -PassThru:$PassThru -StackName $StackName
    }
    else {
        & $wrappedCmd -PassThru:$PassThru -StackName $StackName
    }

    # Switch environment based on new location
    if ($PWD) {
        Switch-Environment -targetPath $PWD.Path
    }
}

# Also hook Push-Location and Pop-Location for pushd/popd
$wrappedPush = Get-Command Push-Location -CommandType Cmdlet
function global:Push-Location {
    param(
        [string]$Path,
        [switch]$PassThru,
        [string]$StackName
    )

    if ($Path) {
        & $wrappedPush -Path $Path -PassThru:$PassThru -StackName $StackName
    }
    else {
        & $wrappedPush -PassThru:$PassThru -StackName $StackName
    }

    if ($PWD) {
        Switch-Environment -targetPath $PWD.Path
    }
}

$wrappedPop = Get-Command Pop-Location -CommandType Cmdlet
function global:Pop-Location {
    param(
        [string]$StackName
    )

    & $wrappedPop -StackName $StackName

    if ($PWD) {
        Switch-Environment -targetPath $PWD.Path
    }
}

# Initial environment check on load
Write-Host "Env Switcher loaded. Current: " -ForegroundColor Gray -NoNewline
if ($PWD) {
    Switch-Environment -targetPath $PWD.Path
}

# Export helper function for debugging
function global:Get-EnvSwitcherStatus {
    [PSCustomObject]@{
        CurrentPath = $script:CurrentEnvPath
        NodeHome = $script:CurrentNodeHome
        JavaHome = $script:CurrentJavaHome
        ConfigPath = $EnvSwitcherConfigPath
    }
}
"#;

/// The line that first marks a hook loaded by an older layout of the
/// profile; uninstalling removes it too.
pub const LEGACY_HOOK_MARKER: &'static str = ". $PSScriptRoot";

/// The PowerShell 7 profile, relative to the documents directory.
pub const POWERSHELL7_PROFILE: &'static str = "PowerShell\\7\\Microsoft.PowerShell_profile.ps1";

/// The Windows PowerShell profile, relative to the documents directory.
pub const WINDOWS_POWERSHELL_PROFILE: &'static str = "WindowsPowerShell\\Microsoft.PowerShell_profile.ps1";

/// The documents directory, or `C:\\Users\\Public\\Documents` when the
/// platform reports none.
pub open spec fn documents_base(d: Option<Seq<char>>) -> Seq<char> {
    match d {
        Some(s) => s,
        None => "C:\\Users\\Public\\Documents"@,
    }
}

/// A path as it is written into the hook script: every `\` doubled.
pub open spec fn escaped(p: Seq<char>) -> Seq<char> {
    replace_char(p, '\\', seq!['\\', '\\'])
}

/// The hook script for the given configuration file and data directory.
pub open spec fn hook_script(config_path: Seq<char>, data_dir: Seq<char>) -> Seq<char> {
    HOOK_SCRIPT_HEAD@ + escaped(config_path) + HOOK_SCRIPT_MIDDLE@ + escaped(data_dir)
        + HOOK_SCRIPT_TAIL@
}

/// The profile line that loads the hook script at `script_path`.
pub open spec fn source_line_for(script_path: Seq<char>) -> Seq<char> {
    ". '"@ + script_path + "'"@
}

/// The profile after installing: unchanged when it already holds the line,
/// else the line appended after an empty line.
pub open spec fn installed_profile(profile: Seq<char>, source_line: Seq<char>) -> Seq<char> {
    if contains_seq(profile, source_line) {
        profile
    } else {
        profile + "\n\n"@ + source_line
    }
}

/// A profile line that uninstalling keeps: once trimmed, it is empty or does
/// not start with the line that loads the hook (nor with the older marker).
pub open spec fn keeps_line(line: Seq<char>, source_line: Seq<char>) -> bool {
    let t = trim_ws(line);
    (!is_prefix_of(source_line, t) && !is_prefix_of(LEGACY_HOOK_MARKER@, t)) || t.len() == 0
}

/// The lines that uninstalling keeps, in order.
pub open spec fn kept_lines(ls: Seq<Seq<char>>, source_line: Seq<char>) -> Seq<Seq<char>>
    decreases ls.len(),
{
    if ls.len() == 0 {
        Seq::empty()
    } else {
        let rest = kept_lines(ls.drop_last(), source_line);
        if keeps_line(ls.last(), source_line) {
            rest.push(ls.last())
        } else {
            rest
        }
    }
}

/// Lines joined with line feeds between them.
pub open spec fn join_lines(ls: Seq<Seq<char>>) -> Seq<char>
    decreases ls.len(),
{
    if ls.len() == 0 {
        Seq::empty()
    } else if ls.len() == 1 {
        ls[0]
    } else {
        join_lines(ls.drop_last()) + seq!['\n'] + ls.last()
    }
}

/// The profile after uninstalling: its lines that are kept, joined with line
/// feeds.
pub open spec fn uninstalled_profile(profile: Seq<char>, source_line: Seq<char>) -> Seq<char> {
    join_lines(kept_lines(lines_of(profile), source_line))
}

/// `p` with every `\` doubled.
pub fn escape_path(p: &str) -> (r: String)
    ensures
        r@ == escaped(p@),
{
    let cs = chars_of(p);
    let doubled = vec!['\\', '\\'];
    assert(doubled@ =~= seq!['\\', '\\']);
    let out = replace_char_with(cs.as_slice(), '\\', doubled.as_slice());
    string_of(out.as_slice())
}

/// Result of hook installation.
#[derive(Debug)]
pub struct InstallResult {
    /// Whether the hook was newly installed
    pub newly_installed: bool,
    /// The profile path that was modified
    pub profile_path: String,
}

/// PowerShell hook injector.
#[derive(Debug)]
pub struct HookInjector {
    /// Path to the hook script (stored separately from profile)
    hook_script_path: String,
}

impl HookInjector {
    /// Where the hook script is kept.
    pub closed spec fn script_path(&self) -> Seq<char> {
        self.hook_script_path@
    }

    /// An injector whose hook script is `hook.ps1` in the default config
    /// directory.
    pub fn new() -> (r: Self)
        ensures
            is_suffix_of("hook.ps1"@, r.script_path()),
            exists|dir: Seq<char>|
                #[trigger] is_suffix_of("env-switcher"@, dir) && (!has_verbatim_prefix(dir)
                    ==> is_joined(r.script_path(), dir, "hook.ps1"@)),
    {
        let dir = Config::default_config_dir();
        let r = Self::in_config_dir(dir.as_str());
        proof {
            reveal_strlit("env-switcher");
            if !has_verbatim_prefix(dir@) {
                lemma_suffix_takes_separator(dir@, "env-switcher"@);
            }
        }
        assert(is_suffix_of("env-switcher"@, dir@) && (!has_verbatim_prefix(dir@) ==> is_joined(
            r.script_path(),
            dir@,
            "hook.ps1"@,
        )));
        r
    }

    /// An injector whose hook script is `hook.ps1` in `dir`.
    pub fn in_config_dir(dir: &str) -> (r: Self)
        ensures
            is_suffix_of("hook.ps1"@, r.script_path()),
            takes_separator(dir@) ==> is_joined(r.script_path(), dir@, "hook.ps1"@),
    {
        proof {
            reveal_strlit("hook.ps1");
        }
        HookInjector { hook_script_path: join_path(dir, "hook.ps1") }
    }

    /// Path to the hook script.
    pub fn hook_script_path(&self) -> (r: &str)
        ensures
            r@ == self.script_path(),
    {
        self.hook_script_path.as_str()
    }

    /// The hook script for `config_path` and the given data directory.
    pub fn render_hook_script(config_path: &str, data_dir: &str) -> (r: String)
        ensures
            r@ == hook_script(config_path@, data_dir@),
    {
        let mut s = HOOK_SCRIPT_HEAD.to_owned();
        let cp = escape_path(config_path);
        s.append(cp.as_str());
        s.append(HOOK_SCRIPT_MIDDLE);
        let dd = escape_path(data_dir);
        s.append(dd.as_str());
        s.append(HOOK_SCRIPT_TAIL);
        s
    }

    /// Generate the hook script content (the data directory is the default
    /// config directory).
    pub fn generate_hook_script(&self, config_path: &str) -> (r: String)
        ensures
            exists|data_dir: Seq<char>|
                is_suffix_of("env-switcher"@, data_dir) && r@ == hook_script(config_path@, data_dir),
    {
        let data_dir = Config::default_config_dir();
        Self::render_hook_script(config_path, data_dir.as_str())
    }

    /// The profile line that loads the hook script.
    pub fn source_line(&self) -> (r: String)
        ensures
            r@ == source_line_for(self.script_path()),
    {
        let mut s = ". '".to_owned();
        s.append(self.hook_script_path.as_str());
        s.append("'");
        s
    }

    /// The profile after installing the hook, and whether the line was
    /// newly added.
    pub fn profile_with_hook(profile: &str, source_line: &str) -> (r: (String, bool))
        ensures
            r.0@ == installed_profile(profile@, source_line@),
            r.1 == !contains_seq(profile@, source_line@),
    {
        let p = chars_of(profile);
        let l = chars_of(source_line);
        if contains(p.as_slice(), l.as_slice()) {
            (profile.to_owned(), false)
        } else {
            let mut s = profile.to_owned();
            s.append("\n\n");
            s.append(source_line);
            (s, true)
        }
    }

    /// Whether the profile loads the hook.
    pub fn profile_has_hook(profile: &str, source_line: &str) -> (r: bool)
        ensures
            r == contains_seq(profile@, source_line@),
    {
        let p = chars_of(profile);
        let l = chars_of(source_line);
        contains(p.as_slice(), l.as_slice())
    }

    /// The profile after uninstalling the hook: the lines that load it are
    /// dropped and the rest joined with line feeds.
    pub fn profile_without_hook(profile: &str, source_line: &str) -> (r: String)
        ensures
            r@ == uninstalled_profile(profile@, source_line@),
    {
        let p = chars_of(profile);
        let l = chars_of(source_line);
        let marker = chars_of(LEGACY_HOOK_MARKER);
        let ls = lines(p.as_slice());
        let ghost lsv = ls@.map_values(|x: Vec<char>| x@);
        let mut out: Vec<char> = Vec::new();
        let mut kept: usize = 0;
        let n = ls.len();
        for i in 0..n
            invariant
                n == ls@.len(),
                lsv == ls@.map_values(|x: Vec<char>| x@),
                lsv == lines_of(profile@),
                l@ == source_line@,
                marker@ == LEGACY_HOOK_MARKER@,
                kept == kept_lines(lsv.take(i as int), source_line@).len(),
                out@ == join_lines(kept_lines(lsv.take(i as int), source_line@)),
        {
            let line = &ls[i];
            let t = trim(line.as_slice());
            let keep = (!starts_with(t.as_slice(), l.as_slice()) && !starts_with(
                t.as_slice(),
                marker.as_slice(),
            )) || t.len() == 0;
            let ghost before = kept_lines(lsv.take(i as int), source_line@);
            proof {
                lemma_kept_lines_len(lsv.take(i as int), source_line@);
                assert(lsv.take(i + 1).drop_last() =~= lsv.take(i as int));
                assert(lsv.take(i + 1).last() == line@);
                assert(keep == keeps_line(line@, source_line@));
            }
            if keep {
                if kept > 0 {
                    out.push('\n');
                }
                let ghost mid = out@;
                let mut k: usize = 0;
                while k < line.len()
                    invariant
                        k <= line@.len(),
                        out@ == mid + line@.take(k as int),
                    decreases line@.len() - k,
                {
                    out.push(line[k]);
                    assert(line@.take(k + 1) == line@.take(k as int).push(line@[k as int]));
                    k = k + 1;
                }
                proof {
                    assert(line@.take(line@.len() as int) == line@);
                    let now = before.push(line@);
                    assert(now.drop_last() =~= before);
                    if before.len() == 0 {
                        assert(out@ =~= line@);
                        assert(join_lines(now) == now[0]);
                    } else {
                        assert(out@ =~= join_lines(before) + seq!['\n'] + line@);
                    }
                }
                kept = kept + 1;
            }
        }
        proof {
            assert(lsv.take(n as int) =~= lsv);
        }
        string_of(out.as_slice())
    }

    /// The two PowerShell profile locations under the documents directory
    /// (`C:\\Users\\Public\\Documents` when there is none): PowerShell 7's,
    /// then Windows PowerShell's.
    pub fn profile_paths_in(documents: Option<String>) -> (r: (String, String))
        ensures
            is_suffix_of(POWERSHELL7_PROFILE@, r.0@),
            is_suffix_of(WINDOWS_POWERSHELL_PROFILE@, r.1@),
            takes_separator(documents_base(opt_view(documents))) ==> is_joined(
                r.0@,
                documents_base(opt_view(documents)),
                POWERSHELL7_PROFILE@,
            ) && is_joined(r.1@, documents_base(opt_view(documents)), WINDOWS_POWERSHELL_PROFILE@),
    {
        proof {
            reveal_strlit("PowerShell\\7\\Microsoft.PowerShell_profile.ps1");
            reveal_strlit("WindowsPowerShell\\Microsoft.PowerShell_profile.ps1");
            reveal_strlit("C:\\Users\\Public\\Documents");
            assert(is_plain_path(POWERSHELL7_PROFILE@));
            assert(is_plain_path(WINDOWS_POWERSHELL_PROFILE@));
        }
        let docs = match documents {
            Some(d) => d,
            None => "C:\\Users\\Public\\Documents".to_owned(),
        };
        let ps7 = join_path(docs.as_str(), POWERSHELL7_PROFILE);
        let winps = join_path(docs.as_str(), WINDOWS_POWERSHELL_PROFILE);
        (ps7, winps)
    }

    /// The two PowerShell profile locations under the user's documents
    /// directory, which the platform reports: PowerShell 7's, then Windows
    /// PowerShell's.
    pub fn profile_paths() -> (r: (String, String))
        ensures
            is_suffix_of(POWERSHELL7_PROFILE@, r.0@),
            is_suffix_of(WINDOWS_POWERSHELL_PROFILE@, r.1@),
    {
        Self::profile_paths_in(document_dir())
    }
}

/// Installing loads the hook: afterwards the profile holds the line.
pub proof fn lemma_installed_profile_loads_hook(profile: Seq<char>, source_line: Seq<char>)
    ensures
        contains_seq(installed_profile(profile, source_line), source_line),
{
    if !contains_seq(profile, source_line) {
        let r = profile + "\n\n"@ + source_line;
        let i = r.len() - source_line.len();
        assert(r.subrange(i, i + source_line.len()) =~= source_line);
        assert(crate::text::occurs_at(r, source_line, i));
    }
}

/// Installing twice changes nothing the second time.
pub proof fn lemma_install_idempotent(profile: Seq<char>, source_line: Seq<char>)
    ensures
        installed_profile(installed_profile(profile, source_line), source_line)
            == installed_profile(profile, source_line),
{
    lemma_installed_profile_loads_hook(profile, source_line);
}

/// Uninstalling keeps no line that loads the hook: every kept line, once
/// trimmed, is empty or starts with neither the line nor the older marker.
pub proof fn lemma_uninstall_keeps_no_hook_line(ls: Seq<Seq<char>>, source_line: Seq<char>)
    ensures
        forall|i: int|
            0 <= i < kept_lines(ls, source_line).len() ==> keeps_line(
                #[trigger] kept_lines(ls, source_line)[i],
                source_line,
            ),
    decreases ls.len(),
{
    if ls.len() > 0 {
        lemma_uninstall_keeps_no_hook_line(ls.drop_last(), source_line);
        let rest = kept_lines(ls.drop_last(), source_line);
        if keeps_line(ls.last(), source_line) {
            assert forall|i: int| 0 <= i < rest.push(ls.last()).len() implies keeps_line(
                #[trigger] rest.push(ls.last())[i],
                source_line,
            ) by {
                if i < rest.len() {
                    assert(rest.push(ls.last())[i] == rest[i]);
                }
            }
        }
    }
}

/// Uninstalling keeps at most the lines there were.
pub proof fn lemma_kept_lines_len(ls: Seq<Seq<char>>, source_line: Seq<char>)
    ensures
        kept_lines(ls, source_line).len() <= ls.len(),
    decreases ls.len(),
{
    if ls.len() > 0 {
        lemma_kept_lines_len(ls.drop_last(), source_line);
    }
}

/// A line that loads the hook: once trimmed, it is not empty and starts with
/// `source_line` (the line that loads the hook script) or the older marker.
pub open spec fn loads_hook(line: Seq<char>, source_line: Seq<char>) -> bool {
    let t = trim_ws(line);
    t.len() > 0 && (is_prefix_of(source_line, t) || is_prefix_of(LEGACY_HOOK_MARKER@, t))
}

/// Uninstalling keeps every line that does not load the hook: each line of
/// the profile whose trimmed text is empty, or starts with neither the
/// given source line nor the older marker, is among the kept lines.
pub proof fn lemma_uninstall_keeps_other_lines(ls: Seq<Seq<char>>, source_line: Seq<char>, i: int)
    requires
        0 <= i < ls.len(),
        ({
            let t = trim_ws(ls[i]);
            t.len() == 0 || (!is_prefix_of(source_line, t) && !is_prefix_of(
                LEGACY_HOOK_MARKER@,
                t,
            ))
        }),
    ensures
        kept_lines(ls, source_line).contains(ls[i]),
    decreases ls.len(),
{
    let rest = kept_lines(ls.drop_last(), source_line);
    if i == ls.len() - 1 {
        assert(kept_lines(ls, source_line) == rest.push(ls.last()));
        assert(kept_lines(ls, source_line)[rest.len() as int] == ls[i]);
    } else {
        assert(ls.drop_last()[i] == ls[i]);
        lemma_uninstall_keeps_other_lines(ls.drop_last(), source_line, i);
        let w = choose|w: int| 0 <= w < rest.len() && rest[w] == ls[i];
        if keeps_line(ls.last(), source_line) {
            assert(kept_lines(ls, source_line)[w] == rest[w]);
        }
    }
}

/// Lines none of which loads the hook all stay, in order.
pub proof fn lemma_kept_lines_without_hook(ls: Seq<Seq<char>>, source_line: Seq<char>)
    requires
        forall|i: int| 0 <= i < ls.len() ==> !loads_hook(#[trigger] ls[i], source_line),
    ensures
        kept_lines(ls, source_line) == ls,
    decreases ls.len(),
{
    if ls.len() > 0 {
        assert forall|i: int| 0 <= i < ls.drop_last().len() implies !loads_hook(
            #[trigger] ls.drop_last()[i],
            source_line,
        ) by {
            assert(ls.drop_last()[i] == ls[i]);
        }
        lemma_kept_lines_without_hook(ls.drop_last(), source_line);
        assert(!loads_hook(ls[ls.len() - 1], source_line));
        assert(ls.drop_last().push(ls.last()) =~= ls);
    }
}

/// Uninstalling from a profile with no line that loads the hook (no line
/// whose trimmed text starts with the source line or the older marker)
/// changes nothing but the line ends: the result is its lines rejoined.
pub proof fn lemma_uninstall_without_hook_keeps_profile(profile: Seq<char>, source_line: Seq<char>)
    requires
        forall|i: int|
            0 <= i < lines_of(profile).len() ==> !loads_hook(#[trigger] lines_of(profile)[i], source_line),
    ensures
        uninstalled_profile(profile, source_line) == join_lines(lines_of(profile)),
{
    lemma_kept_lines_without_hook(lines_of(profile), source_line);
}

} // verus!
