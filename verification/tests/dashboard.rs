use squadz::api::dashboard::{
    dashboard_page, generate_password, html_escape, login_page, password_char, DashboardQuery,
    LOGIN_PAGE, PASSWORD_ALPHABET,
};
use squadz::services::squad_manager::SquadManager;
use squadz::time::Timestamp;

fn query(password: Option<&str>) -> DashboardQuery {
    DashboardQuery { password: password.map(|p| p.to_string()) }
}

#[test]
fn html_escape_writes_entities() {
    assert_eq!(html_escape(""), "");
    assert_eq!(html_escape("plain"), "plain");
    assert_eq!(html_escape("a&b"), "a&amp;b");
    assert_eq!(html_escape("<b>"), "&lt;b&gt;");
    assert_eq!(html_escape("say \"hi\""), "say &quot;hi&quot;");
    assert_eq!(html_escape("&lt;"), "&amp;lt;");
    assert_eq!(html_escape("it's"), "it's");
    assert_eq!(html_escape("<ä & ö>"), "&lt;ä &amp; ö&gt;");
}

#[test]
fn html_escape_agrees_with_four_replacements_in_a_row() {
    for text in ["", "&<>\"", "a&&b", "&amp;", "<<>>", "\"&\"", "no entities", "&quot;<"] {
        let expected = text
            .replace('&', "&amp;")
            .replace('<', "&lt;")
            .replace('>', "&gt;")
            .replace('"', "&quot;");
        assert_eq!(html_escape(text), expected);
    }
}

#[test]
fn login_page_asks_for_the_password() {
    let page = login_page();
    assert_eq!(page, LOGIN_PAGE);
    assert!(page.starts_with("<!DOCTYPE html>\n<html lang=\"en\">"));
    assert!(page.contains("<title>Squadz Dashboard - Login</title>"));
    assert!(page.contains("<input type=\"password\" name=\"password\" placeholder=\"Password\" autofocus>"));
    assert!(page.ends_with("</body>\n</html>"));
    assert_eq!(page.len(), 1906);
}

#[test]
fn dashboard_wants_the_password() {
    let manager = SquadManager::new();
    assert_eq!(dashboard_page(&manager, "secret", &query(None)), LOGIN_PAGE);
    assert_eq!(dashboard_page(&manager, "secret", &query(Some("wrong"))), LOGIN_PAGE);
    assert_eq!(dashboard_page(&manager, "secret", &query(Some(""))), LOGIN_PAGE);
    assert_ne!(dashboard_page(&manager, "secret", &query(Some("secret"))), LOGIN_PAGE);
}

#[test]
fn dashboard_without_squads() {
    let manager = SquadManager::new();
    let page = dashboard_page(&manager, "secret", &query(Some("secret")));
    assert!(page.contains("<title>Squadz Dashboard</title>"));
    assert!(page.contains("<div class=\"stat-value\">0</div>\n                <div class=\"stat-label\">Active Squads</div>"));
    assert!(page.contains("<div class=\"stat-value\">0</div>\n                <div class=\"stat-label\">Total Members</div>"));
    assert!(page.contains("<a href=\"?password=secret\" class=\"btn\">"));
    assert!(page.contains("<div class=\"empty\">No squads created yet. Use the API or mobile app to create one!</div>"));
    assert!(!page.contains("squad-card\">"));
    assert!(page.contains("* { margin: 0; padding: 0; box-sizing: border-box; }"));
    assert!(page.contains("Health: ${JSON.stringify(health, null, 2)}"));
    assert!(page.ends_with("</script>\n</body>\n</html>"));
}

#[test]
fn dashboard_shows_squads_and_members() {
    let mut manager = SquadManager::new();
    let now = Timestamp::from_secs(1);
    manager
        .create_squad_with(
            "A<lpha>".to_string(),
            "Cap & Co".to_string(),
            None,
            0xa1a2a3a4_b1b2_c1c2_d1d2_d3d4d5d6d7d8,
            0x0000beef_0000_0000_0000_000000000001,
            "ABCDEF".to_string(),
            now,
        )
        .unwrap();
    manager
        .join_squad_with("ABCDEF", "Rookie".to_string(), u128::MAX, now)
        .unwrap();
    manager
        .create_squad_with("Bravo".to_string(), "Boss".to_string(), None, 2, 3, "BCDEFG".to_string(), now)
        .unwrap();

    let page = dashboard_page(&manager, "pw", &query(Some("pw")));
    assert!(page.contains("<div class=\"stat-value\">2</div>\n                <div class=\"stat-label\">Active Squads</div>"));
    assert!(page.contains("<div class=\"stat-value\">3</div>\n                <div class=\"stat-label\">Total Members</div>"));
    assert!(page.contains("<h3>🎯 A&lt;lpha&gt;</h3>"));
    assert!(page.contains("<p><strong>Join Code:</strong> <code class=\"join-code\">ABCDEF</code></p>"));
    assert!(page.contains("<p><strong>Squad ID:</strong> <code>a1a2a3a4</code></p>"));
    assert!(page.contains("<p><strong>Members:</strong> 2</p>"));
    assert!(page.contains("<td>Cap &amp; Co</td>\n                    <td><code>0000beef</code></td>\n                    <td>👑 Leader</td>"));
    assert!(page.contains("<td>Rookie</td>\n                    <td><code>ffffffff</code></td>\n                    <td>Member</td>"));
    assert!(page.contains("<h3>🎯 Bravo</h3>"));
    assert!(page.contains("<p><strong>Squad ID:</strong> <code>00000000</code></p>"));
    assert!(page.contains("<p><strong>Members:</strong> 1</p>"));
    assert!(!page.contains("No squads created yet"));
    assert!(page.find("A&lt;lpha&gt;").unwrap() < page.find("Bravo").unwrap());
    assert_eq!(page.matches("<div class=\"squad-card\">").count(), 2);
    assert_eq!(page.matches("<tr>\n").count(), 3);
}

#[test]
fn password_characters() {
    assert_eq!(password_char(0), '0');
    assert_eq!(password_char(9), '9');
    assert_eq!(password_char(10), 'a');
    assert_eq!(password_char(35), 'z');
    assert_eq!(password_char(36), '0');
    assert_eq!(password_char(usize::MAX), PASSWORD_ALPHABET[usize::MAX % 36]);
    let alphabet: String = PASSWORD_ALPHABET.iter().collect();
    assert_eq!(alphabet, "0123456789abcdefghijklmnopqrstuvwxyz");
}

#[test]
fn generated_password_has_twelve_characters() {
    let a = generate_password();
    let b = generate_password();
    assert_eq!(a.len(), 12);
    assert!(a.chars().all(|c| c.is_ascii_digit() || c.is_ascii_lowercase()));
    assert_ne!(a, b);
}
