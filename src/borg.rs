//! The archive engine (borg): the command lines of its operations and the
//! values its JSON output carries.
use vstd::prelude::*;

verus! {

/// An archive as the engine lists it; `start` in `YYYY-MM-DDTHH:MM:SS.ffffff`.
#[derive(Clone, Debug)]
pub struct Archive {
    pub id: String,
    pub name: String,
    pub start: String,
}

#[derive(Clone, Debug)]
pub struct Encryption {
    pub mode: String,
}

/// A repository as the engine reports it.
#[derive(Clone, Debug)]
pub struct Repository {
    pub id: String,
    pub last_modified: String,
    pub location: String,
}

#[derive(Clone, Debug)]
pub struct CreateOutput {
    pub archive: Archive,
    pub repository: Repository,
}

#[derive(Clone, Debug)]
pub struct InfoOutput {
    pub repository: Repository,
}

#[derive(Clone, Debug)]
pub struct ListOutput {
    pub archives: Vec<Archive>,
    pub encryption: Encryption,
    pub repository: Repository,
}

/// The text of each argument.
pub open spec fn arg_views(args: Seq<String>) -> Seq<Seq<char>> {
    args.map_values(|a: String| a@)
}

pub open spec fn flag_if(on: bool, flag: Seq<char>) -> Seq<Seq<char>> {
    if on {
        seq![flag]
    } else {
        Seq::empty()
    }
}

/// `<repo>::<name>`, the engine's address of one archive.
pub open spec fn archive_location(repo: Seq<char>, name: Seq<char>) -> Seq<char> {
    repo + "::"@ + name
}

/// The archive name under which `create` stores a snapshot: the prefix and
/// the engine's UTC timestamp placeholder.
pub open spec fn timestamped(prefix: Seq<char>) -> Seq<char> {
    prefix + "-{utcnow:%Y%m%d-%H%M%S}"@
}

pub open spec fn init_command(repo: Seq<char>, encryption: Seq<char>) -> Seq<Seq<char>> {
    seq!["init"@, "--progress"@, "--encryption"@, encryption, repo]
}

pub open spec fn info_command(repo: Seq<char>) -> Seq<Seq<char>> {
    seq!["info"@, "--json"@, repo]
}

pub open spec fn list_command(repo: Seq<char>) -> Seq<Seq<char>> {
    seq!["list"@, "--json"@, repo]
}

pub open spec fn create_command(
    repo: Seq<char>,
    prefix: Seq<char>,
    compression: Seq<char>,
    dry_run: bool,
) -> Seq<Seq<char>> {
    seq!["create"@] + flag_if(dry_run, "--dry-run"@) + seq![
        "--json"@,
        "--progress"@,
        "--compression"@,
        compression,
        "--noatime"@,
        "--noacls"@,
        "--nobsdflags"@,
        "--noxattrs"@,
        archive_location(repo, timestamped(prefix)),
        "."@,
    ]
}

pub open spec fn delete_command(repo: Seq<char>, prefix: Seq<char>, dry_run: bool) -> Seq<
    Seq<char>,
> {
    seq!["delete"@] + flag_if(dry_run, "--dry-run"@) + seq![
        "--progress"@,
        "--prefix"@,
        prefix,
        repo,
    ]
}

pub open spec fn prune_command(repo: Seq<char>, prefix: Seq<char>, dry_run: bool) -> Seq<
    Seq<char>,
> {
    seq!["prune"@] + flag_if(dry_run, "--dry-run"@) + seq![
        "--keep-last"@,
        "1"@,
        "--prefix"@,
        prefix,
        repo,
    ]
}

pub open spec fn extract_command(repo: Seq<char>, name: Seq<char>, dry_run: bool) -> Seq<
    Seq<char>,
> {
    seq!["extract"@] + flag_if(dry_run, "--dry-run"@) + seq![archive_location(repo, name)]
}

pub open spec fn check_command(repo: Seq<char>, name: Seq<char>, repair: bool) -> Seq<Seq<char>> {
    seq!["check"@] + flag_if(repair, "--repair"@) + seq![archive_location(repo, name)]
}

fn text(s: &str) -> (r: String)
    ensures
        r@ == s@,
{
    s.to_owned()
}

fn location(repo: &str, name: &str) -> (r: String)
    ensures
        r@ == archive_location(repo@, name@),
{
    text(repo).concat("::").concat(name)
}

/// Arguments of `borg init`: create a repository with the encryption mode.
pub fn init_args(repo: &str, encryption: &str) -> (r: Vec<String>)
    ensures
        arg_views(r@) == init_command(repo@, encryption@),
{
    let mut v: Vec<String> = Vec::new();
    v.push(text("init"));
    v.push(text("--progress"));
    v.push(text("--encryption"));
    v.push(text(encryption));
    v.push(text(repo));
    assert(arg_views(v@) =~= init_command(repo@, encryption@));
    v
}

/// Arguments of `borg info`, with JSON output.
pub fn info_args(repo: &str) -> (r: Vec<String>)
    ensures
        arg_views(r@) == info_command(repo@),
{
    let mut v: Vec<String> = Vec::new();
    v.push(text("info"));
    v.push(text("--json"));
    v.push(text(repo));
    assert(arg_views(v@) =~= info_command(repo@));
    v
}

/// Arguments of `borg list`, with JSON output.
pub fn list_args(repo: &str) -> (r: Vec<String>)
    ensures
        arg_views(r@) == list_command(repo@),
{
    let mut v: Vec<String> = Vec::new();
    v.push(text("list"));
    v.push(text("--json"));
    v.push(text(repo));
    assert(arg_views(v@) =~= list_command(repo@));
    v
}

/// Arguments of `borg create`, run from inside the directory (`.`), storing
/// the snapshot under the prefix followed by a timestamp.
pub fn create_args(repo: &str, prefix: &str, compression: &str, dry_run: bool) -> (r: Vec<
    String,
>)
    ensures
        arg_views(r@) == create_command(repo@, prefix@, compression@, dry_run),
{
    let mut v: Vec<String> = Vec::new();
    v.push(text("create"));
    if dry_run {
        v.push(text("--dry-run"));
    }
    v.push(text("--json"));
    v.push(text("--progress"));
    v.push(text("--compression"));
    v.push(text(compression));
    v.push(text("--noatime"));
    v.push(text("--noacls"));
    v.push(text("--nobsdflags"));
    v.push(text("--noxattrs"));
    let name = text(prefix).concat("-{utcnow:%Y%m%d-%H%M%S}");
    v.push(location(repo, name.as_str()));
    v.push(text("."));
    assert(arg_views(v@) =~= create_command(repo@, prefix@, compression@, dry_run));
    v
}

/// Arguments of `borg delete` for every archive whose name starts with the prefix.
pub fn delete_args(repo: &str, prefix: &str, dry_run: bool) -> (r: Vec<String>)
    ensures
        arg_views(r@) == delete_command(repo@, prefix@, dry_run),
{
    let mut v: Vec<String> = Vec::new();
    v.push(text("delete"));
    if dry_run {
        v.push(text("--dry-run"));
    }
    v.push(text("--progress"));
    v.push(text("--prefix"));
    v.push(text(prefix));
    v.push(text(repo));
    assert(arg_views(v@) =~= delete_command(repo@, prefix@, dry_run));
    v
}

/// Arguments of `borg prune` keeping only the newest archive of the prefix.
pub fn prune_args(repo: &str, prefix: &str, dry_run: bool) -> (r: Vec<String>)
    ensures
        arg_views(r@) == prune_command(repo@, prefix@, dry_run),
{
    let mut v: Vec<String> = Vec::new();
    v.push(text("prune"));
    if dry_run {
        v.push(text("--dry-run"));
    }
    v.push(text("--keep-last"));
    v.push(text("1"));
    v.push(text("--prefix"));
    v.push(text(prefix));
    v.push(text(repo));
    assert(arg_views(v@) =~= prune_command(repo@, prefix@, dry_run));
    v
}

/// Arguments of `borg extract`, run from inside the destination directory.
pub fn extract_args(repo: &str, name: &str, dry_run: bool) -> (r: Vec<String>)
    ensures
        arg_views(r@) == extract_command(repo@, name@, dry_run),
{
    let mut v: Vec<String> = Vec::new();
    v.push(text("extract"));
    if dry_run {
        v.push(text("--dry-run"));
    }
    v.push(location(repo, name));
    assert(arg_views(v@) =~= extract_command(repo@, name@, dry_run));
    v
}

/// Arguments of `borg check`, repairing where asked.
pub fn check_args(repo: &str, name: &str, repair: bool) -> (r: Vec<String>)
    ensures
        arg_views(r@) == check_command(repo@, name@, repair),
{
    let mut v: Vec<String> = Vec::new();
    v.push(text("check"));
    if repair {
        v.push(text("--repair"));
    }
    v.push(location(repo, name));
    assert(arg_views(v@) =~= check_command(repo@, name@, repair));
    v
}

} // verus!
