//! What a generated host block looks like, whatever the source host resolves
//! to.

use vstd::prelude::*;
use crate::entries::value_of;
use crate::profile::{ProfileStatus, ProfileView};
use crate::ssh::{
    block_head, config_escaped, config_word, directive_of, first_of_key, has_control, host_block,
    option_line, option_lines, own_values, proxy_line, repeated_options, with_options,
};
use crate::text::{lemma_run, lines, strip_return};

verus! {

/// Lines as a text, each with its newline.
pub open spec fn line_text(all: Seq<Seq<char>>) -> Seq<char>
    decreases all.len(),
{
    if all.len() == 0 {
        Seq::empty()
    } else {
        line_text(all.drop_last()) + all.last() + seq!['\n']
    }
}

proof fn lemma_line_text_first(all: Seq<Seq<char>>)
    requires
        all.len() > 0,
    ensures
        line_text(all) == all[0] + seq!['\n'] + line_text(all.skip(1)),
    decreases all.len(),
{
    if all.len() == 1 {
        assert(all.drop_last() =~= Seq::empty());
        assert(all.skip(1) =~= Seq::empty());
        assert(line_text(all.drop_last()) =~= Seq::empty());
        assert(line_text(all) =~= all[0] + seq!['\n'] + line_text(all.skip(1)));
    } else {
        lemma_line_text_first(all.drop_last());
        assert(all.drop_last().skip(1) =~= all.skip(1).drop_last());
        assert(all.skip(1).last() == all.last());
        assert(line_text(all) =~= all[0] + seq!['\n'] + line_text(all.skip(1)));
    }
}

/// Whether a text goes over more than one line.
pub open spec fn has_newline(s: Seq<char>) -> bool {
    exists|i: int| 0 <= i < s.len() && #[trigger] s[i] == '\n'
}

/// Whether a text can be a line: it holds no newline, and does not end in what
/// counts as part of one.
pub open spec fn is_line(s: Seq<char>) -> bool {
    !has_newline(s) && !(s.len() > 0 && s.last() == '\r')
}

/// Lines without line endings in them are the lines of their text.
pub proof fn lemma_lines_of_text(all: Seq<Seq<char>>)
    requires
        forall|i: int| 0 <= i < all.len() ==> is_line(#[trigger] all[i]),
    ensures
        lines(line_text(all)) == all,
    decreases all.len(),
{
    let text = line_text(all);
    if all.len() == 0 {
        assert(text =~= Seq::empty());
        assert(all =~= Seq::empty());
    } else {
        let first = all[0];
        let rest = all.skip(1);
        lemma_line_text_first(all);
        assert forall|i: int| 0 <= i < rest.len() implies is_line(#[trigger] rest[i]) by {
            assert(rest[i] == all[i + 1]);
        }
        lemma_lines_of_text(rest);
        let n = first.len();
        assert forall|i: int| 0 <= i < n implies #[trigger] text[i] != '\n' by {
            assert(text[i] == first[i]);
            if first[i] == '\n' {
                assert(has_newline(first));
            }
        }
        assert(text[n as int] == '\n');
        lemma_run(text, |c: char| c == '\n', n);
        assert(text.take(n as int) =~= first);
        assert(text.skip(n as int + 1) =~= line_text(rest));
        assert(strip_return(first) == first);
        assert(seq![first] + rest =~= all);
    }
}

/// The directives that a host block may hold.
pub open spec fn block_directives() -> Seq<Seq<char>> {
    seq!["HostName"@, "User"@, "Port"@, "ProxyCommand"@, "RequestTTY"@]
        + repeated_options().map_values(|key: Seq<char>| directive_of(key))
}

/// Whether a line sets something for the host before it.
pub open spec fn is_setting(line: Seq<char>) -> bool {
    exists|directive: Seq<char>, value: Seq<char>|
        block_directives().contains(directive) && line == #[trigger] ("  "@ + directive + " "@
            + value)
}

/// Whether lines are those of one host: a comment, the host, and what is set
/// for it.
pub open spec fn is_layout(all: Seq<Seq<char>>, alias: Seq<char>) -> bool {
    &&& all.len() >= 2
    &&& "# profile="@.is_prefix_of(all[0])
    &&& all[1] == "Host "@ + alias
    &&& forall|i: int| 2 <= i < all.len() ==> is_setting(#[trigger] all[i])
    &&& forall|i: int| 0 <= i < all.len() ==> is_line(#[trigger] all[i])
}

pub open spec fn is_laid_out(text: Seq<char>, alias: Seq<char>) -> bool {
    exists|all: Seq<Seq<char>>| text == #[trigger] line_text(all) && is_layout(all, alias)
}

pub proof fn lemma_no_control_join(a: Seq<char>, b: Seq<char>)
    requires
        !has_control(a),
        !has_control(b),
    ensures
        !has_control(a + b),
{
    if has_control(a + b) {
        let s = a + b;
        let i = choose|i: int|
            0 <= i < s.len() && (#[trigger] s[i] == '\n' || s[i] == '\r' || s[i] == '\0');
        if i < a.len() {
            assert(s[i] == a[i]);
            assert(has_control(a));
        } else {
            assert(s[i] == b[i - a.len()]);
            assert(has_control(b));
        }
    }
}

proof fn lemma_no_newline_join(a: Seq<char>, b: Seq<char>)
    requires
        !has_newline(a),
        !has_newline(b),
    ensures
        !has_newline(a + b),
{
    if has_newline(a + b) {
        let s = a + b;
        let i = choose|i: int| 0 <= i < s.len() && #[trigger] s[i] == '\n';
        if i < a.len() {
            assert(s[i] == a[i]);
            assert(has_newline(a));
        } else {
            assert(s[i] == b[i - a.len()]);
            assert(has_newline(b));
        }
    }
}

/// A text without forbidden characters can be a line.
pub proof fn lemma_no_control_is_line(s: Seq<char>)
    requires
        !has_control(s),
    ensures
        is_line(s),
{
    if has_newline(s) {
        let i = choose|i: int| 0 <= i < s.len() && #[trigger] s[i] == '\n';
        assert(has_control(s));
    }
    if s.len() > 0 && s.last() == '\r' {
        assert(s[s.len() - 1] == '\r');
        assert(has_control(s));
    }
}

proof fn lemma_escaped_no_control(value: Seq<char>)
    requires
        !has_control(value),
    ensures
        !has_control(config_escaped(value)),
    decreases value.len(),
{
    if value.len() > 0 {
        let head = value.drop_last();
        assert(!has_control(head)) by {
            assert forall|i: int| 0 <= i < head.len() implies head[i] == value[i] by {}
            if has_control(head) {
                let i = choose|i: int|
                    0 <= i < head.len() && (#[trigger] head[i] == '\n' || head[i] == '\r' || head[i]
                        == '\0');
                assert(value[i] == head[i]);
                assert(has_control(value));
            }
        }
        lemma_escaped_no_control(head);
        let last = value.last();
        assert(value[value.len() - 1] == last);
        assert(last != '\n' && last != '\r' && last != '\0');
        assert(!has_control(seq![last]));
        assert(!has_control(seq!['\\']));
        lemma_no_control_join(config_escaped(head), seq!['\\']);
        lemma_no_control_join(config_escaped(head) + seq!['\\'], seq![last]);
        lemma_no_control_join(config_escaped(head), seq![last]);
        assert(config_escaped(head).push('\\').push(last) =~= config_escaped(head) + seq!['\\']
            + seq![last]);
        assert(config_escaped(head).push(last) =~= config_escaped(head) + seq![last]);
    }
}

pub proof fn lemma_word_no_control(value: Seq<char>)
    requires
        !has_control(value),
    ensures
        !has_control(config_word(value)),
{
    lemma_escaped_no_control(value);
    assert(!has_control(seq!['"']));
    lemma_no_control_join(seq!['"'], config_escaped(value));
    lemma_no_control_join(seq!['"'] + config_escaped(value), seq!['"']);
}

/// One more line that sets something leaves the layout as it is.
proof fn lemma_one_more(text: Seq<char>, alias: Seq<char>, directive: Seq<char>, value: Seq<char>)
    requires
        is_laid_out(text, alias),
        block_directives().contains(directive),
        !has_control(directive),
        !has_control(value),
    ensures
        is_laid_out(text + ("  "@ + directive + " "@ + value + seq!['\n']), alias),
{
    reveal_strlit("  ");
    reveal_strlit(" ");
    let all = choose|all: Seq<Seq<char>>|
        text == #[trigger] line_text(all) && is_layout(all, alias);
    let line = "  "@ + directive + " "@ + value;
    assert(!has_control("  "@));
    assert(!has_control(" "@));
    lemma_no_control_join("  "@, directive);
    lemma_no_control_join("  "@ + directive, " "@);
    lemma_no_control_join("  "@ + directive + " "@, value);
    lemma_no_control_is_line(line);
    let more = all.push(line);
    assert(is_setting(line));
    assert(more.drop_last() =~= all);
    assert forall|i: int| 2 <= i < more.len() implies is_setting(#[trigger] more[i]) by {
        if i < all.len() {
            assert(more[i] == all[i]);
        }
    }
    assert forall|i: int| 0 <= i < more.len() implies is_line(#[trigger] more[i]) by {
        if i < all.len() {
            assert(more[i] == all[i]);
        }
    }
    assert(more[0] == all[0] && more[1] == all[1]);
    assert(line_text(more) =~= text + (line + seq!['\n']));
}

/// The directives of the repeated options stand among those of a block, and
/// hold no line ending.
pub proof fn lemma_directive(key: Seq<char>)
    requires
        repeated_options().contains(key),
    ensures
        block_directives().contains(directive_of(key)),
        !has_control(directive_of(key)),
{
    let keys = repeated_options();
    let names = keys.map_values(|key: Seq<char>| directive_of(key));
    let i = choose|i: int| 0 <= i < keys.len() && keys[i] == key;
    assert(names[i] == directive_of(key));
    assert(block_directives()[5 + i] == directive_of(key));
    reveal_strlit("AddressFamily");
    reveal_strlit("BindAddress");
    reveal_strlit("CanonicalizeHostname");
    reveal_strlit("Compression");
    reveal_strlit("ConnectionAttempts");
    reveal_strlit("ConnectTimeout");
    reveal_strlit("ControlMaster");
    reveal_strlit("ControlPath");
    reveal_strlit("ControlPersist");
    reveal_strlit("ForwardAgent");
    reveal_strlit("HostKeyAlias");
    reveal_strlit("IdentitiesOnly");
    reveal_strlit("IdentityAgent");
    reveal_strlit("IPQoS");
    reveal_strlit("ProxyJump");
    reveal_strlit("ServerAliveCountMax");
    reveal_strlit("ServerAliveInterval");
    reveal_strlit("StrictHostKeyChecking");
    reveal_strlit("UserKnownHostsFile");
    reveal_strlit("IdentityFile");
}

pub proof fn lemma_option_lines(
    text: Result<Seq<char>, Seq<char>>,
    alias: Seq<char>,
    key: Seq<char>,
    list: Seq<Seq<char>>,
    n: nat,
)
    requires
        n <= list.len(),
        repeated_options().contains(key),
        text matches Ok(text) ==> is_laid_out(text, alias),
    ensures
        option_lines(text, key, list, n) matches Ok(after) ==> is_laid_out(after, alias),
    decreases n,
{
    if n > 0 {
        lemma_option_lines(text, alias, key, list, (n - 1) as nat);
        if option_lines(text, key, list, n) is Ok {
            let before = option_lines(text, key, list, (n - 1) as nat)->Ok_0;
            let value = list[n - 1];
            let line = option_line(key, value)->Ok_0;
            if line.len() == 0 {
                assert(before + line =~= before);
            } else {
                reveal_strlit("\n");
                assert("\n"@ =~= seq!['\n']);
                lemma_directive(key);
                lemma_word_no_control(value);
                lemma_one_more(before, alias, directive_of(key), value);
                lemma_one_more(before, alias, directive_of(key), config_word(value));
            }
        }
    }
}

pub proof fn lemma_options(
    text: Result<Seq<char>, Seq<char>>,
    alias: Seq<char>,
    values: Seq<(Seq<char>, Seq<Seq<char>>)>,
    inherited: Seq<(Seq<char>, Seq<Seq<char>>)>,
    n: nat,
)
    requires
        n <= repeated_options().len(),
        text matches Ok(text) ==> is_laid_out(text, alias),
    ensures
        with_options(text, values, inherited, repeated_options(), n) matches Ok(after)
            ==> is_laid_out(after, alias),
    decreases n,
{
    if n > 0 {
        let keys = repeated_options();
        lemma_options(text, alias, values, inherited, (n - 1) as nat);
        let before = with_options(text, values, inherited, keys, (n - 1) as nat);
        let key = keys[n - 1];
        assert(repeated_options().contains(key));
        match value_of(values, key) {
            Some(list) => {
                let own = own_values(key, list, value_of(inherited, key));
                lemma_option_lines(before, alias, key, own, own.len());
            },
            None => {},
        }
    }
}

/// Whether a profile can stand in a block: its names hold no newline, and the
/// alias, which ends its line, can end one.
pub open spec fn fits_in_block(profile: ProfileView) -> bool {
    &&& !has_newline(profile.name)
    &&& !has_newline(profile.source_host)
    &&& is_line(profile.app_alias)
}

proof fn lemma_status(status: ProfileStatus)
    ensures
        is_line(status.name()),
        status.name().len() > 0,
{
    reveal_strlit("prepared");
    reveal_strlit("installed");
    reveal_strlit("ready");
    reveal_strlit("broken");
    match status {
        ProfileStatus::Prepared => {},
        ProfileStatus::Installed => {},
        ProfileStatus::Ready => {},
        ProfileStatus::Broken => {},
    }
}

/// The comment above a block.
pub open spec fn block_comment(profile: ProfileView) -> Seq<char> {
    "# profile="@ + profile.name + " source="@ + profile.source_host + " status="@
        + profile.status.name()
}

pub proof fn lemma_comment(profile: ProfileView)
    requires
        fits_in_block(profile),
    ensures
        is_line(block_comment(profile)),
        "# profile="@.is_prefix_of(block_comment(profile)),
{
    reveal_strlit("# profile=");
    reveal_strlit(" source=");
    reveal_strlit(" status=");
    lemma_status(profile.status);
    let status = profile.status.name();
    let one = "# profile="@ + profile.name;
    let two = one + " source="@;
    let three = two + profile.source_host;
    let four = three + " status="@;
    assert(!has_newline("# profile="@));
    assert(!has_newline(" source="@));
    assert(!has_newline(" status="@));
    lemma_no_newline_join("# profile="@, profile.name);
    lemma_no_newline_join(one, " source="@);
    lemma_no_newline_join(two, profile.source_host);
    lemma_no_newline_join(three, " status="@);
    lemma_no_newline_join(four, status);
    let comment = block_comment(profile);
    assert(comment == four + status);
    assert(comment.last() == status.last());
    assert(comment.subrange(0, "# profile="@.len() as int) =~= "# profile="@);
}

/// The beginning of a block: its comment and its host.
pub proof fn lemma_start(profile: ProfileView)
    requires
        fits_in_block(profile),
    ensures
        is_laid_out(
            block_comment(profile) + seq!['\n'] + ("Host "@ + profile.app_alias) + seq!['\n'],
            profile.app_alias,
        ),
{
    reveal_strlit("Host ");
    lemma_comment(profile);
    let alias = profile.app_alias;
    let comment = block_comment(profile);
    let host = "Host "@ + alias;
    assert(!has_newline("Host "@));
    lemma_no_newline_join("Host "@, alias);
    assert(alias.len() > 0 ==> host.last() == alias.last());
    assert(alias.len() == 0 ==> host.last() == ' ');
    let all = seq![comment, host];
    assert(all.drop_last() =~= seq![comment]);
    assert(seq![comment].drop_last() =~= Seq::empty());
    assert(line_text(seq![comment].drop_last()) =~= Seq::empty());
    assert(line_text(seq![comment]) =~= comment + seq!['\n']);
    assert(line_text(all) =~= comment + seq!['\n'] + host + seq!['\n']);
    assert(is_layout(all, alias));
}

pub proof fn lemma_head(
    profile: ProfileView,
    hostname: Seq<char>,
    user: Seq<char>,
    port: Seq<char>,
)
    requires
        fits_in_block(profile),
        block_head(profile, hostname, user, port) is Ok,
    ensures
        is_laid_out(block_head(profile, hostname, user, port)->Ok_0, profile.app_alias),
{
    reveal_strlit("\nHost ");
    reveal_strlit("Host ");
    reveal_strlit("\n  HostName ");
    reveal_strlit("\n  User ");
    reveal_strlit("\n  Port ");
    reveal_strlit("HostName");
    reveal_strlit("User");
    reveal_strlit("Port");
    reveal_strlit("  ");
    reveal_strlit(" ");
    reveal_strlit("\n");
    let alias = profile.app_alias;
    let comment = block_comment(profile);
    let host = "Host "@ + alias;
    let start = comment + seq!['\n'] + host + seq!['\n'];
    lemma_start(profile);
    assert(block_directives()[0] == "HostName"@);
    assert(block_directives()[1] == "User"@);
    assert(block_directives()[2] == "Port"@);
    assert(!has_control("HostName"@));
    assert(!has_control("User"@));
    assert(!has_control("Port"@));
    lemma_word_no_control(hostname);
    lemma_word_no_control(user);
    lemma_word_no_control(port);
    let one = "  "@ + "HostName"@ + " "@ + config_word(hostname) + seq!['\n'];
    let two = "  "@ + "User"@ + " "@ + config_word(user) + seq!['\n'];
    let three = "  "@ + "Port"@ + " "@ + config_word(port) + seq!['\n'];
    lemma_one_more(start, alias, "HostName"@, config_word(hostname));
    lemma_one_more(start + one, alias, "User"@, config_word(user));
    lemma_one_more(start + one + two, alias, "Port"@, config_word(port));
    assert("\nHost "@ =~= seq!['\n'] + "Host "@);
    assert("\n  HostName "@ =~= seq!['\n'] + ("  "@ + "HostName"@ + " "@));
    assert("\n  User "@ =~= seq!['\n'] + ("  "@ + "User"@ + " "@));
    assert("\n  Port "@ =~= seq!['\n'] + ("  "@ + "Port"@ + " "@));
    assert("\n"@ =~= seq!['\n']);
    assert(block_head(profile, hostname, user, port)->Ok_0 =~= start + one + two + three);
}

/// A host block is one host: a comment, one line that names the alias, and
/// lines below it that set something for it, each from a fixed list of
/// directives, the last of which asks for no terminal. Whatever the source host
/// resolves to, no line comes in by a value, and none forwards a port or a
/// socket.
pub proof fn law_host_blocks_are_laid_out(
    profile: ProfileView,
    source_host: Seq<char>,
    values: Seq<(Seq<char>, Seq<Seq<char>>)>,
    inherited: Seq<(Seq<char>, Seq<Seq<char>>)>,
)
    requires
        fits_in_block(profile),
        host_block(profile, source_host, values, inherited) is Ok,
    ensures
        ({
            let text = host_block(profile, source_host, values, inherited)->Ok_0;
            &&& is_laid_out(text, profile.app_alias)
            &&& is_layout(lines(text), profile.app_alias)
            &&& lines(text).len() > 2
            &&& lines(text).last() == "  RequestTTY no"@
        }),
        !block_directives().contains("LocalForward"@),
        !block_directives().contains("RemoteForward"@),
        !block_directives().contains("DynamicForward"@),
{
    let alias = profile.app_alias;
    let text = host_block(profile, source_host, values, inherited)->Ok_0;
    let hostname = first_of_key(values, "hostname"@)->Some_0;
    let user = first_of_key(values, "user"@)->Some_0;
    let port = first_of_key(values, "port"@)->Some_0;
    let head = block_head(profile, hostname, user, port);
    let keys = repeated_options();
    if head is Ok {
        lemma_head(profile, hostname, user, port);
    }
    lemma_options(head, alias, values, inherited, keys.len());
    let options = with_options(head, values, inherited, keys, keys.len())->Ok_0;
    let proxy = proxy_line(first_of_key(values, "proxycommand"@))->Ok_0;
    reveal_strlit("\n");
    reveal_strlit("  ");
    reveal_strlit(" ");
    reveal_strlit("no");
    reveal_strlit("ProxyCommand");
    reveal_strlit("RequestTTY");
    reveal_strlit("  ProxyCommand ");
    reveal_strlit("  RequestTTY no\n");
    assert("\n"@ =~= seq!['\n']);
    assert(block_directives()[3] == "ProxyCommand"@);
    assert(block_directives()[4] == "RequestTTY"@);
    assert(!has_control("ProxyCommand"@));
    assert(!has_control("RequestTTY"@));
    assert(!has_control("no"@));
    if proxy.len() == 0 {
        assert(options + proxy =~= options);
    } else {
        let command = first_of_key(values, "proxycommand"@)->Some_0;
        lemma_one_more(options, alias, "ProxyCommand"@, command);
        assert("  ProxyCommand "@ =~= "  "@ + "ProxyCommand"@ + " "@);
        assert(proxy =~= "  "@ + "ProxyCommand"@ + " "@ + command + seq!['\n']);
    }
    lemma_one_more(options + proxy, alias, "RequestTTY"@, "no"@);
    assert("  RequestTTY no\n"@ =~= "  "@ + "RequestTTY"@ + " "@ + "no"@ + seq!['\n']);
    assert(is_laid_out(text, alias));
    let all = choose|all: Seq<Seq<char>>|
        text == #[trigger] line_text(all) && is_layout(all, alias);
    lemma_lines_of_text(all);
    lemma_no_forwarding();
    let before = choose|all: Seq<Seq<char>>|
        options + proxy == #[trigger] line_text(all) && is_layout(all, alias);
    reveal_strlit("  RequestTTY no");
    let last = "  RequestTTY no"@;
    lemma_no_control_is_line(last);
    let whole = before.push(last);
    assert(whole.drop_last() =~= before);
    assert("  RequestTTY no\n"@ =~= last + seq!['\n']);
    assert(line_text(whole) =~= text);
    assert forall|i: int| 0 <= i < whole.len() implies is_line(#[trigger] whole[i]) by {
        if i < before.len() {
            assert(whole[i] == before[i]);
        }
    }
    lemma_lines_of_text(whole);
}

proof fn lemma_no_forwarding()
    ensures
        !block_directives().contains("LocalForward"@),
        !block_directives().contains("RemoteForward"@),
        !block_directives().contains("DynamicForward"@),
{
    reveal_strlit("LocalForward");
    reveal_strlit("RemoteForward");
    reveal_strlit("DynamicForward");
    reveal_strlit("HostName");
    reveal_strlit("User");
    reveal_strlit("Port");
    reveal_strlit("ProxyCommand");
    reveal_strlit("RequestTTY");
    reveal_strlit("AddressFamily");
    reveal_strlit("BindAddress");
    reveal_strlit("CanonicalizeHostname");
    reveal_strlit("Compression");
    reveal_strlit("ConnectionAttempts");
    reveal_strlit("ConnectTimeout");
    reveal_strlit("ControlMaster");
    reveal_strlit("ControlPath");
    reveal_strlit("ControlPersist");
    reveal_strlit("ForwardAgent");
    reveal_strlit("HostKeyAlias");
    reveal_strlit("IdentitiesOnly");
    reveal_strlit("IdentityAgent");
    reveal_strlit("IPQoS");
    reveal_strlit("ProxyJump");
    reveal_strlit("ServerAliveCountMax");
    reveal_strlit("ServerAliveInterval");
    reveal_strlit("StrictHostKeyChecking");
    reveal_strlit("UserKnownHostsFile");
    reveal_strlit("IdentityFile");
    let names = block_directives();
    assert("LocalForward"@[0] == 'L' && "DynamicForward"@[0] == 'D' && "RemoteForward"@[2] == 'm');
    assert forall|i: int| 0 <= i < names.len() implies (#[trigger] names[i])[0] != 'L' && names[i][0]
        != 'D' && names[i][2] != 'm' || names[i] == "Compression"@ by {
        if i >= 5 {
            assert(names[i] == directive_of(repeated_options()[i - 5]));
        }
    }
    assert("Compression"@[0] == 'C' && "RemoteForward"@[0] == 'R');
}

} // verus!
