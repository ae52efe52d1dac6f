//! Parsing of shown packages.

use platform_linux::firewall_uci::{parse_uci_show, parse_uci_values, MAX_UCI_VALUES};

#[test]
fn parses_ordered_sections_and_multi_value_options_without_shell_evaluation() {
    let parsed = parse_uci_show(
        "firewall.@defaults[0]=defaults\n\
         firewall.@defaults[0].input='REJECT'\n\
         firewall.@zone[0]=zone\n\
         firewall.@zone[0].name='lan'\n\
         firewall.@zone[0].network='lan' 'guest'\n",
    )
    .expect("parse");
    assert_eq!(parsed.len(), 2);
    assert_eq!(parsed[1].order, 1);
    assert_eq!(parsed[1].first("name"), Some("lan"));
    assert_eq!(parsed[1].values("network"), ["lan", "guest"]);
}

#[test]
fn rejects_shell_escapes_duplicates_and_unbounded_values() {
    assert!(parse_uci_show("firewall.x=zone;touch /tmp/x\n").is_err());
    assert!(parse_uci_show("firewall.x=zone\nfirewall.x=zone\n").is_err());
    assert!(parse_uci_show("firewall.x=zone\nfirewall.x.name='a'\\''b'\n").is_err());
    let values = (0..=MAX_UCI_VALUES)
        .map(|index| format!("'{index}'"))
        .collect::<Vec<_>>()
        .join(" ");
    assert!(
        parse_uci_show(&format!("firewall.x=zone\nfirewall.x.network={values}\n")).is_err()
    );
}

#[test]
fn shown_package_is_read_back() {
    let packages: [(&str, &str, Vec<(&str, Vec<&str>)>); 3] = [
        ("@defaults[0]", "defaults", vec![("input", vec!["REJECT"])]),
        ("guest", "zone", vec![("name", vec!["guest"]), ("network", vec!["a b", "c=d", "\u{e9}"])]),
        ("empty", "rule", vec![]),
    ];
    let mut text = String::new();
    for (selector, section_type, options) in &packages {
        text.push_str(&format!("firewall.{selector}={section_type}\n"));
        for (name, values) in options {
            let shown: Vec<String> = values.iter().map(|value| format!("'{value}'")).collect();
            text.push_str(&format!("firewall.{selector}.{name}={}\n", shown.join(" ")));
        }
    }
    let parsed = parse_uci_show(&text).expect("parse");
    assert_eq!(parsed.len(), packages.len());
    for (index, (selector, section_type, options)) in packages.iter().enumerate() {
        let section = &parsed[index];
        assert_eq!(section.selector, *selector);
        assert_eq!(section.section_type, *section_type);
        assert_eq!(section.order as usize, index);
        assert_eq!(section.options.len(), options.len());
        for (name, values) in options {
            assert_eq!(section.values(name), values.as_slice());
        }
    }
}

#[test]
fn option_lines_may_stand_anywhere() {
    let listing = parse_uci_show(
        "firewall.a=zone\nfirewall.a.name='x'\nfirewall.a.network='n' 'm'\n\
         firewall.b=rule\nfirewall.b.target='DROP'\n",
    )
    .expect("listing");
    let permuted = parse_uci_show(
        "firewall.b.target='DROP'\nfirewall.a.network='n' 'm'\nfirewall.a=zone\n\
         firewall.b=rule\nfirewall.a.name='x'\n",
    )
    .expect("permuted");
    assert_eq!(permuted.len(), listing.len());
    for (p, l) in permuted.iter().zip(listing.iter()) {
        assert_eq!(p.selector, l.selector);
        assert_eq!(p.section_type, l.section_type);
        assert_eq!(p.order, l.order);
        assert_eq!(p.options.len(), l.options.len());
        for name in ["name", "network", "target"] {
            assert_eq!(p.values(name), l.values(name));
        }
    }
    let reordered = parse_uci_show("firewall.b=rule\nfirewall.a=zone\n").expect("reordered");
    assert_eq!(reordered[0].selector, "b");
}

#[test]
fn a_quoted_value_is_read_back() {
    for value in ["", "guest", "two words", "a=b;c", "\u{e9}"] {
        let quoted: Vec<char> = format!("'{value}'").chars().collect();
        assert_eq!(parse_uci_values(&quoted), Ok(vec![value.to_string()]));
    }
    let open: Vec<char> = "'guest".chars().collect();
    assert!(parse_uci_values(&open).is_err());
}

#[test]
fn permuted_lines_are_read_alike_with_carriage_returns_too() {
    let listing = "firewall.a=zone\r\nfirewall.a.name='x'\r\r\nfirewall.b=rule\n\nfirewall.b.target='DROP'\n";
    let first = parse_uci_show(listing).expect("listing");
    let lines: Vec<&str> = listing.lines().collect();
    let order = [4, 1, 3, 0, 2];
    let permuted: String = order.iter().map(|&index| format!("{}\n", lines[index])).collect();
    assert!(permuted.len() <= listing.len());
    let second = parse_uci_show(&permuted).expect("permuted");
    assert_eq!(second.len(), first.len());
    for (s, f) in second.iter().zip(first.iter()) {
        assert_eq!((&s.selector, &s.section_type, s.order), (&f.selector, &f.section_type, f.order));
        for name in ["name", "target"] {
            assert_eq!(s.values(name), f.values(name));
        }
    }
}
