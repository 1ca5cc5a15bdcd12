//! Dashboard endpoints for viewing squads and members
//!
//! Password-protected admin dashboard

use vstd::prelude::*;

use crate::entropy::random_word;
use crate::models::{member_views, text_view, Id, Member, MemberView, Squad, SquadView};
use crate::services::squad_manager::{total_members, SquadManager};
use crate::text::{decimal_text, hex_text, push_decimal, push_hex, same_text};

verus! {

/// The page that asks for the password.
pub const LOGIN_PAGE: &'static str = r#"<!DOCTYPE html>
<html lang="en">
<head>
    <meta charset="UTF-8">
    <meta name="viewport" content="width=device-width, initial-scale=1.0">
    <title>Squadz Dashboard - Login</title>
    <style>
        * { margin: 0; padding: 0; box-sizing: border-box; }
        body { 
            font-family: -apple-system, BlinkMacSystemFont, 'Segoe UI', Roboto, sans-serif;
            background: linear-gradient(135deg, #1a1a2e 0%, #16213e 100%);
            color: #eee;
            min-height: 100vh;
            display: flex;
            align-items: center;
            justify-content: center;
        }
        .login-card {
            background: #16213e;
            border-radius: 12px;
            padding: 2rem;
            box-shadow: 0 4px 6px rgba(0,0,0,0.3);
            text-align: center;
            max-width: 400px;
            width: 90%;
        }
        h1 { color: #4ade80; margin-bottom: 1rem; }
        p { color: #888; margin-bottom: 1.5rem; }
        input {
            width: 100%;
            padding: 0.75rem;
            margin-bottom: 1rem;
            border: none;
            border-radius: 8px;
            background: #0f3460;
            color: #fff;
            font-size: 1rem;
        }
        button {
            width: 100%;
            padding: 0.75rem;
            border: none;
            border-radius: 8px;
            background: #4ade80;
            color: #000;
            font-weight: bold;
            cursor: pointer;
            font-size: 1rem;
        }
        button:hover { background: #22c55e; }
    </style>
</head>
<body>
    <div class="login-card">
        <h1>🎯 Squadz Dashboard</h1>
        <p>Enter password to view squads</p>
        <form method="GET">
            <input type="password" name="password" placeholder="Password" autofocus>
            <button type="submit">Login</button>
        </form>
    </div>
</body>
</html>"#;

/// A table row, up to the name.
pub const ROW_0: &'static str = r#"<tr>
                    <td>"#;

/// A table row, between the name and the identity.
pub const ROW_1: &'static str = r#"</td>
                    <td><code>"#;

/// A table row, between the identity and the role.
pub const ROW_2: &'static str = r#"</code></td>
                    <td>"#;

/// A table row, behind the role.
pub const ROW_3: &'static str = r#"</td>
                </tr>"#;

/// A squad card, up to the name.
pub const CARD_0: &'static str = r#"
            <div class="squad-card">
                <h3>🎯 "#;

/// A squad card, between the name and the join code.
pub const CARD_1: &'static str = r#"</h3>
                <p><strong>Join Code:</strong> <code class="join-code">"#;

/// A squad card, between the join code and the identity.
pub const CARD_2: &'static str = r#"</code></p>
                <p><strong>Squad ID:</strong> <code>"#;

/// A squad card, between the identity and the number of members.
pub const CARD_3: &'static str = r#"</code></p>
                <p><strong>Members:</strong> "#;

/// A squad card, between the number of members and the rows.
pub const CARD_4: &'static str = r#"</p>
                <table>
                    <thead>
                        <tr><th>Name</th><th>ID</th><th>Role</th></tr>
                    </thead>
                    <tbody>"#;

/// A squad card, behind the rows.
pub const CARD_5: &'static str = r#"</tbody>
                </table>
            </div>
            "#;

/// What stands in place of the cards where there is no squad.
pub const NO_SQUADS: &'static str = r#"<div class="empty">No squads created yet. Use the API or mobile app to create one!</div>"#;

/// The dashboard, up to the number of squads.
pub const PAGE_0: &'static str = r#"<!DOCTYPE html>
<html lang="en">
<head>
    <meta charset="UTF-8">
    <meta name="viewport" content="width=device-width, initial-scale=1.0">
    <title>Squadz Dashboard</title>
    <style>
        * { margin: 0; padding: 0; box-sizing: border-box; }
        body { 
            font-family: -apple-system, BlinkMacSystemFont, 'Segoe UI', Roboto, sans-serif;
            background: linear-gradient(135deg, #1a1a2e 0%, #16213e 100%);
            color: #eee;
            min-height: 100vh;
            padding: 2rem;
        }
        .container { max-width: 1200px; margin: 0 auto; }
        h1 { font-size: 2rem; margin-bottom: 0.5rem; color: #4ade80; }
        .subtitle { color: #888; margin-bottom: 2rem; }
        .stats {
            display: grid;
            grid-template-columns: repeat(auto-fit, minmax(150px, 1fr));
            gap: 1rem;
            margin-bottom: 2rem;
        }
        .stat-card {
            background: #16213e;
            border-radius: 12px;
            padding: 1.5rem;
            text-align: center;
            box-shadow: 0 4px 6px rgba(0,0,0,0.3);
        }
        .stat-value { font-size: 2.5rem; font-weight: bold; color: #4ade80; }
        .stat-label { color: #888; margin-top: 0.5rem; }
        .squad-card {
            background: #16213e;
            border-radius: 12px;
            padding: 1.5rem;
            margin-bottom: 1rem;
            box-shadow: 0 4px 6px rgba(0,0,0,0.3);
        }
        .squad-card h3 { color: #4ade80; margin-bottom: 1rem; }
        .squad-card p { margin: 0.5rem 0; }
        code { background: #0f3460; padding: 0.2rem 0.5rem; border-radius: 4px; font-family: monospace; }
        .join-code { font-size: 1.2rem; color: #fbbf24; background: #1e3a5f; }
        table { width: 100%; border-collapse: collapse; margin-top: 1rem; }
        th, td { padding: 0.75rem; text-align: left; border-bottom: 1px solid #2a3f5f; }
        th { color: #888; font-weight: normal; }
        .empty { text-align: center; padding: 3rem; color: #888; background: #16213e; border-radius: 12px; }
        .btn { 
            background: #3b82f6; color: white; border: none; padding: 0.75rem 1.5rem; 
            border-radius: 8px; cursor: pointer; font-size: 1rem; text-decoration: none;
            display: inline-block; margin-right: 0.5rem; margin-bottom: 1rem;
        }
        .btn:hover { background: #2563eb; }
        .btn-green { background: #4ade80; color: #000; }
        .btn-green:hover { background: #22c55e; }
        .crypto-section {
            background: #16213e;
            border-radius: 12px;
            padding: 1.5rem;
            margin-bottom: 2rem;
            box-shadow: 0 4px 6px rgba(0,0,0,0.3);
        }
        .crypto-section h3 { color: #fbbf24; margin-bottom: 1rem; }
        #crypto-result { 
            background: #0f3460; 
            padding: 1rem; 
            border-radius: 8px; 
            margin-top: 1rem;
            font-family: monospace;
            white-space: pre-wrap;
            display: none;
        }
    </style>
</head>
<body>
    <div class="container">
        <h1>🎯 Squadz Dashboard</h1>
        <p class="subtitle">Real-time squad tracking admin panel</p>
        
        <div class="stats">
            <div class="stat-card">
                <div class="stat-value">"#;

/// The dashboard, between the number of squads and the number of members.
pub const PAGE_1: &'static str = r#"</div>
                <div class="stat-label">Active Squads</div>
            </div>
            <div class="stat-card">
                <div class="stat-value">"#;

/// The dashboard, between the number of members and the password.
pub const PAGE_2: &'static str = r#"</div>
                <div class="stat-label">Total Members</div>
            </div>
            <div class="stat-card">
                <div class="stat-value">✅</div>
                <div class="stat-label">Server Status</div>
            </div>
        </div>

        <a href="?password="#;

/// The dashboard, between the password and the cards.
pub const PAGE_3: &'static str = r#"" class="btn">🔄 Refresh</a>
        
        <div class="crypto-section">
            <h3>🔐 Omni-Core-Lite Crypto Test</h3>
            <p>Test AES-256-GCM encryption round-trip with the server</p>
            <button class="btn btn-green" onclick="testCrypto()">Run Crypto Test</button>
            <div id="crypto-result"></div>
        </div>

        <h2 style="margin-bottom: 1rem;">Squads</h2>
        "#;

/// The dashboard, behind the cards.
pub const PAGE_4: &'static str = r#"
    </div>
    
    <script>
        async function testCrypto() {
            const result = document.getElementById('crypto-result');
            result.style.display = 'block';
            result.textContent = 'Testing crypto...';
            
            try {
                // Test health
                const health = await fetch('/api/v1/crypto/health').then(r => r.json());
                
                // Test encrypt
                const encrypted = await fetch('/api/v1/crypto/encrypt', {
                    method: 'POST',
                    headers: { 'Content-Type': 'application/json' },
                    body: JSON.stringify({ plaintext: 'Hello from dashboard at ' + new Date().toISOString() })
                }).then(r => r.json());
                
                // Test decrypt
                const decrypted = await fetch('/api/v1/crypto/decrypt', {
                    method: 'POST',
                    headers: { 'Content-Type': 'application/json' },
                    body: JSON.stringify({ nonce: encrypted.nonce, ciphertext: encrypted.ciphertext })
                }).then(r => r.json());
                
                result.textContent = `✅ Crypto Test PASSED!

Health: ${JSON.stringify(health, null, 2)}

Encrypted: ${JSON.stringify(encrypted, null, 2)}

Decrypted: ${JSON.stringify(decrypted, null, 2)}`;
            } catch (err) {
                result.textContent = '❌ Crypto Test FAILED: ' + err.message;
            }
        }
    </script>
</body>
</html>"#;

/// The role of the leader.
pub const LEADER_ROLE: &'static str = r#"👑 Leader"#;

/// The role of every other member.
pub const MEMBER_ROLE: &'static str = r#"Member"#;

/// Number of characters in a generated password.
pub const PASSWORD_LEN: usize = 12;

/// The characters a generated password is drawn from.
pub const PASSWORD_ALPHABET: [char; 36] = [
    '0', '1', '2', '3', '4', '5', '6', '7', '8', '9', 'a', 'b', 'c', 'd', 'e', 'f', 'g', 'h',
    'i', 'j', 'k', 'l', 'm', 'n', 'o', 'p', 'q', 'r', 's', 't', 'u', 'v', 'w', 'x', 'y', 'z',
];

/// What divides an identity down to its first 32 bits.
pub const SHORT_ID_DIVISOR: u128 = 0x1_0000_0000_0000_0000_0000_0000;

#[derive(Debug)]
pub struct DashboardQuery {
    pub password: Option<String>,
}

/// What one character becomes where it stands in HTML text.
pub open spec fn escaped_char(c: char) -> Seq<char> {
    if c == '&' {
        "&amp;"@
    } else if c == '<' {
        "&lt;"@
    } else if c == '>' {
        "&gt;"@
    } else if c == '"' {
        "&quot;"@
    } else {
        seq![c]
    }
}

/// `text` with `&`, `<`, `>` and `"` written as HTML entities.
pub open spec fn escaped(text: Seq<char>) -> Seq<char>
    decreases text.len(),
{
    if text.len() == 0 {
        Seq::empty()
    } else {
        escaped(text.drop_last()) + escaped_char(text.last())
    }
}

/// Writes `&`, `<`, `>` and `"` as HTML entities.
pub fn html_escape(s: &str) -> (out: String)
    ensures
        out@ == escaped(s@),
{
    let mut out = String::new();
    for c in it: s.chars()
        invariant
            it.seq() == s@,
            out@ == escaped(s@.take(it.index() as int)),
    {
        proof {
            let i = it.index() as int;
            assert(s@.take(i + 1).drop_last() =~= s@.take(i));
            assert(s@.take(i + 1).last() == c);
        }
        if c == '&' {
            out.append("&amp;");
        } else if c == '<' {
            out.append("&lt;");
        } else if c == '>' {
            out.append("&gt;");
        } else if c == '"' {
            out.append("&quot;");
        } else {
            let ghost before = out@;
            out.push(c);
            assert(out@ =~= before + seq![c]);
        }
    }
    proof {
        assert(s@.take(s@.len() as int) =~= s@);
    }
    out
}

/// The page that asks for the password.
pub fn login_page() -> (page: String)
    ensures
        page@ == LOGIN_PAGE@,
{
    LOGIN_PAGE.to_owned()
}

/// The first eight digits of an identity in its usual notation: its first
/// 32 bits in base sixteen.
pub open spec fn short_id(id: Id) -> Seq<char> {
    hex_text((id / SHORT_ID_DIVISOR) as nat, 8)
}

/// The role that the dashboard shows for a member.
pub open spec fn role_text(is_leader: bool) -> Seq<char> {
    if is_leader {
        LEADER_ROLE@
    } else {
        MEMBER_ROLE@
    }
}

/// The table row of a member.
pub open spec fn member_row(member: MemberView) -> Seq<char> {
    ROW_0@ + escaped(member.display_name) + ROW_1@ + short_id(member.member_id) + ROW_2@
        + role_text(member.is_leader) + ROW_3@
}

/// The table rows of a list of members, in order.
pub open spec fn member_rows(members: Seq<MemberView>) -> Seq<char>
    decreases members.len(),
{
    if members.len() == 0 {
        Seq::empty()
    } else {
        member_rows(members.drop_last()) + member_row(members.last())
    }
}

/// The card of a squad.
pub open spec fn squad_card(squad: SquadView) -> Seq<char> {
    CARD_0@ + escaped(squad.name) + CARD_1@ + squad.join_code + CARD_2@ + short_id(squad.squad_id)
        + CARD_3@ + decimal_text(squad.members.len()) + CARD_4@ + member_rows(squad.members)
        + CARD_5@
}

/// The cards of a list of squads, in order.
pub open spec fn squad_cards(squads: Seq<SquadView>) -> Seq<char>
    decreases squads.len(),
{
    if squads.len() == 0 {
        Seq::empty()
    } else {
        squad_cards(squads.drop_last()) + squad_card(squads.last())
    }
}

/// The dashboard for the given squads.
pub open spec fn dashboard_html(squads: Seq<SquadView>, password: Seq<char>) -> Seq<char> {
    PAGE_0@ + decimal_text(squads.len()) + PAGE_1@ + decimal_text(total_members(squads)) + PAGE_2@
        + password + PAGE_3@ + (if squads.len() == 0 {
        NO_SQUADS@
    } else {
        squad_cards(squads)
    }) + PAGE_4@
}

/// The page that a request with the password `given` is answered with: the
/// dashboard where it is the expected password, else the login page.
pub open spec fn page_for(squads: Seq<SquadView>, expected: Seq<char>, given: Option<Seq<char>>) -> Seq<
    char,
> {
    if given == Some(expected) {
        dashboard_html(squads, expected)
    } else {
        LOGIN_PAGE@
    }
}

/// Appends the first eight digits of an identity.
fn push_short_id(out: &mut String, id: Id)
    ensures
        final(out)@ == old(out)@ + short_id(id),
{
    push_hex(out, id / SHORT_ID_DIVISOR, 8);
}

/// Appends the table row of a member.
fn push_member_row(out: &mut String, member: &Member)
    ensures
        final(out)@ == old(out)@ + member_row(member@),
{
    out.append(ROW_0);
    let name = html_escape(member.display_name.as_str());
    out.append(name.as_str());
    out.append(ROW_1);
    push_short_id(out, member.member_id);
    out.append(ROW_2);
    if member.is_leader {
        out.append(LEADER_ROLE);
    } else {
        out.append(MEMBER_ROLE);
    }
    out.append(ROW_3);
    proof {
        assert(out@ =~= old(out)@ + member_row(member@));
    }
}

/// Appends the table rows of a list of members.
fn push_member_rows(out: &mut String, members: &Vec<Member>)
    ensures
        final(out)@ == old(out)@ + member_rows(member_views(members@)),
{
    let ghost all = member_views(members@);
    let mut i: usize = 0;
    proof {
        assert(all.take(0) =~= Seq::<MemberView>::empty());
        assert(out@ =~= old(out)@ + member_rows(all.take(0)));
    }
    while i < members.len()
        invariant
            i <= members@.len(),
            all == member_views(members@),
            out@ == old(out)@ + member_rows(all.take(i as int)),
        decreases members@.len() - i,
    {
        let ghost before = out@;
        proof {
            assert(all.take(i + 1).drop_last() =~= all.take(i as int));
            assert(all.take(i + 1).last() == members@[i as int]@);
        }
        push_member_row(out, &members[i]);
        proof {
            assert(out@ =~= old(out)@ + member_rows(all.take(i + 1)));
        }
        i += 1;
    }
    proof {
        assert(all.take(members@.len() as int) =~= all);
    }
}

/// Appends the card of a squad.
fn push_squad_card(out: &mut String, squad: &Squad)
    ensures
        final(out)@ == old(out)@ + squad_card(squad@),
{
    out.append(CARD_0);
    let name = html_escape(squad.name.as_str());
    out.append(name.as_str());
    out.append(CARD_1);
    out.append(squad.join_code.as_str());
    out.append(CARD_2);
    push_short_id(out, squad.squad_id);
    out.append(CARD_3);
    push_decimal(out, squad.members.len() as u128);
    out.append(CARD_4);
    push_member_rows(out, &squad.members);
    out.append(CARD_5);
    proof {
        assert(out@ =~= old(out)@ + squad_card(squad@));
    }
}

/// GET / - Dashboard HTML page
///
/// `dashboard_password` is the password that opens the dashboard.
pub fn dashboard_page(manager: &SquadManager, dashboard_password: &str, query: &DashboardQuery) -> (page:
    String)
    ensures
        page@ == page_for(manager@, dashboard_password@, text_view(query.password)),
{
    // Check password
    let authenticated = match &query.password {
        Some(given) => same_text(given.as_str(), dashboard_password),
        None => false,
    };
    if !authenticated {
        return login_page();
    }
    // Get all squads
    let squads = manager.list_squads();
    let ghost all = Seq::new(squads@.len(), |i: int| squads@[i]@);
    proof {
        assert(all =~= manager@);
    }
    // Calculate stats
    let total = manager.member_count();
    let mut page = PAGE_0.to_owned();
    push_decimal(&mut page, squads.len() as u128);
    page.append(PAGE_1);
    push_decimal(&mut page, total);
    page.append(PAGE_2);
    page.append(dashboard_password);
    page.append(PAGE_3);
    let ghost head = page@;
    // Build squad cards HTML
    if squads.len() == 0 {
        page.append(NO_SQUADS);
    } else {
        let mut i: usize = 0;
        proof {
            assert(all.take(0) =~= Seq::<SquadView>::empty());
            assert(page@ =~= head + squad_cards(all.take(0)));
        }
        while i < squads.len()
            invariant
                i <= squads@.len(),
                all == Seq::new(squads@.len(), |i: int| squads@[i]@),
                page@ == head + squad_cards(all.take(i as int)),
            decreases squads@.len() - i,
        {
            proof {
                assert(all.take(i + 1).drop_last() =~= all.take(i as int));
                assert(all.take(i + 1).last() == squads@[i as int]@);
            }
            push_squad_card(&mut page, squads[i]);
            proof {
                assert(page@ =~= head + squad_cards(all.take(i + 1)));
            }
            i += 1;
        }
        proof {
            assert(all.take(squads@.len() as int) =~= all);
        }
    }
    page.append(PAGE_4);
    proof {
        assert(page@ =~= dashboard_html(manager@, dashboard_password@));
    }
    page
}

/// The character of a password that the random number `draw` stands for.
pub fn password_char(draw: usize) -> (c: char)
    ensures
        c == PASSWORD_ALPHABET@[draw as int % 36],
{
    PASSWORD_ALPHABET[draw % 36]
}

/// A password of [`PASSWORD_LEN`] random digits and small letters.
pub fn generate_password() -> (password: String)
    ensures
        password@.len() == PASSWORD_LEN,
        forall|i: int|
            0 <= i < password@.len() ==> PASSWORD_ALPHABET@.contains(#[trigger] password@[i]),
{
    let mut password = String::new();
    let mut i: usize = 0;
    while i < PASSWORD_LEN
        invariant
            i <= PASSWORD_LEN,
            password@.len() == i,
            forall|j: int| 0 <= j < i ==> PASSWORD_ALPHABET@.contains(#[trigger] password@[j]),
        decreases PASSWORD_LEN - i,
    {
        let c = password_char(random_word());
        password.push(c);
        i += 1;
    }
    password
}

} // verus!
