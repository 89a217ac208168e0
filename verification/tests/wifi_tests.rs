use transfel::wifi::{
    connect_args, connect_outcome_lower, connect_report, connecting_report, device_ip,
    device_ip_from_addr, device_ip_from_route, disconnect_args, disconnect_report, first_line,
    normalize, pair_args, pair_outcome, pair_outcome_lower, pairing_report, saved_address,
    tcpip_args, try_connect, usb_after_ip, usb_after_port, usb_opening, valid_ip, WifiEvent,
    WifiJob, WifiManager, LOG_LINES, WIFI_PORT,
};

fn text_of(e: &WifiEvent) -> (&'static str, String) {
    match e {
        WifiEvent::Log(t) => ("log", t.clone()),
        WifiEvent::Success(t) => ("ok", t.clone()),
        WifiEvent::Failure(t) => ("fail", t.clone()),
        WifiEvent::Busy(b) => ("busy", b.to_string()),
    }
}

#[test]
fn normalize_adds_port() {
    assert_eq!(normalize(" 192.168.1.5 "), "192.168.1.5:5555");
    assert_eq!(normalize("192.168.1.5:4321"), "192.168.1.5:4321");
    assert_eq!(normalize(""), ":5555");
    assert_eq!(normalize(&normalize("10.0.0.2")), "10.0.0.2:5555");
    assert_eq!(WIFI_PORT, 5555);
}

#[test]
fn first_line_trims() {
    assert_eq!(first_line("  error: boom \nsecond"), "error: boom");
    assert_eq!(first_line("   "), "");
    assert_eq!(first_line(""), "");
}

#[test]
fn connect_outcomes() {
    let a = "192.168.1.5:5555";
    assert_eq!(try_connect(a, None), Err("No se pudo ejecutar adb connect".to_string()));
    assert_eq!(try_connect(a, Some("Connected to 192.168.1.5:5555")), Ok(format!("Conectado a {a}")));
    assert_eq!(
        try_connect(a, Some("already connected to 192.168.1.5:5555")),
        Ok(format!("Conectado a {a}"))
    );
    assert_eq!(
        try_connect(a, Some("failed to authenticate to 192.168.1.5:5555")),
        Err("El dispositivo no autorizó la conexión. Conéctalo por USB una vez y acepta el aviso.".to_string())
    );
    assert_eq!(
        try_connect(a, Some("cannot connect to 192.168.1.5:5555: Connection refused\nmore")),
        Err("cannot connect to 192.168.1.5:5555: Connection refused".to_string())
    );
    assert_eq!(
        connect_outcome_lower(a, "X", "already connected"),
        Ok(format!("Ya estaba conectado a {a}"))
    );
}

#[test]
fn connect_reports() {
    assert_eq!(text_of(&connect_report(Ok("a".to_string()))), ("ok", "a".to_string()));
    assert_eq!(text_of(&connect_report(Err("b".to_string()))), ("fail", "b".to_string()));
    assert_eq!(text_of(&connecting_report("h:1")), ("log", "Conectando a h:1...".to_string()));
    assert_eq!(text_of(&pairing_report("h:2")), ("log", "Emparejando con h:2...".to_string()));
    assert_eq!(text_of(&disconnect_report("h:3")), ("ok", "Desconectado de h:3".to_string()));
}

#[test]
fn command_arguments() {
    assert_eq!(connect_args("h:1"), vec!["connect", "h:1"]);
    assert_eq!(pair_args("h:1", "123456"), vec!["pair", "h:1", "123456"]);
    assert_eq!(disconnect_args("h:1"), vec!["disconnect", "h:1"]);
    assert_eq!(tcpip_args("abc"), vec!["-s", "abc", "tcpip", "5555"]);
}

#[test]
fn pairing_outcomes() {
    let ok = pair_outcome(Some("Successfully paired to 192.168.1.5:37000"));
    let ok: Vec<_> = ok.iter().map(text_of).collect();
    assert_eq!(
        ok,
        vec![
            (
                "log",
                "Emparejado. Ahora conecta con la IP y el puerto de conexión (no el de emparejamiento).".to_string()
            ),
            ("ok", "Emparejamiento correcto".to_string()),
        ]
    );
    let bad: Vec<_> = pair_outcome(Some(" Failed: wrong code \nx")).iter().map(text_of).collect();
    assert_eq!(bad, vec![("fail", "Failed: wrong code".to_string())]);
    let none: Vec<_> = pair_outcome(None).iter().map(text_of).collect();
    assert_eq!(
        none,
        vec![(
            "fail",
            "Falló el emparejamiento. Revisa el código y que la pantalla siga abierta.".to_string()
        )]
    );
    let lower: Vec<_> = pair_outcome_lower(Some(("X", "successfully"))).iter().map(text_of).collect();
    assert_eq!(lower.len(), 2);
}

#[test]
fn usb_steps() {
    assert_eq!(text_of(&usb_opening()), ("log", "Abriendo puerto TCP".to_string()));
    match usb_after_port(true) {
        Ok(e) => assert_eq!(text_of(&e), ("log", "Leyendo la ip del dispositivo...".to_string())),
        Err(_) => panic!("the port opened"),
    }
    match usb_after_port(false) {
        Err(e) => assert_eq!(
            text_of(&e),
            ("fail", "No se pudo abrir el puerto. Sigue conectado por cable".to_string())
        ),
        Ok(_) => panic!("the port did not open"),
    }
    match usb_after_ip(Some("192.168.1.5")) {
        Ok((a, e)) => {
            assert_eq!(a, "192.168.1.5:5555");
            assert_eq!(text_of(&e), ("log", "Conectando a 192.168.1.5:5555".to_string()));
        }
        Err(_) => panic!("the address was read"),
    }
    match usb_after_ip(None) {
        Err(e) => assert_eq!(
            text_of(&e),
            ("fail", "No se pudo ver la ip. Asegurese q este conectaod a internet".to_string())
        ),
        Ok(_) => panic!("no address"),
    }
}

#[test]
fn ip_validation() {
    assert!(valid_ip("192.168.1.5"));
    assert!(valid_ip("10.0.0.255"));
    assert!(!valid_ip("127.0.0.1"));
    assert!(!valid_ip("192.168.1"));
    assert!(!valid_ip("192.168.1.256"));
    assert!(!valid_ip("192.168.1.x"));
    assert!(!valid_ip("1.2.3.4.5"));
    assert!(!valid_ip(""));
}

#[test]
fn phone_address_from_interface() {
    let out = "3: wlan0: <BROADCAST,MULTICAST,UP,LOWER_UP> mtu 1500\n    inet 192.168.1.23/24 brd 192.168.1.255 scope global wlan0";
    assert_eq!(device_ip_from_addr(out), Some("192.168.1.23".to_string()));
    assert_eq!(device_ip_from_addr("inet 127.0.0.1/8"), None);
    assert_eq!(device_ip_from_addr("no address here"), None);
    assert_eq!(device_ip_from_addr("inet"), None);
}

#[test]
fn phone_address_from_routes() {
    let out = "10.0.0.0/8 dev rmnet0 proto kernel scope link src 127.0.0.9\n192.168.1.0/24 dev wlan1 proto kernel scope link src 192.168.1.40";
    assert_eq!(device_ip_from_route(out), Some("192.168.1.40".to_string()));
    assert_eq!(device_ip_from_route("default via 1.1.1.1"), None);
}

#[test]
fn phone_address_prefers_interface() {
    let addr = "inet 192.168.1.23/24";
    let route = "x src 192.168.1.40";
    assert_eq!(device_ip(Some(addr), Some(route)), Some("192.168.1.23".to_string()));
    assert_eq!(device_ip(Some("nothing"), Some(route)), Some("192.168.1.40".to_string()));
    assert_eq!(device_ip(None, Some(route)), Some("192.168.1.40".to_string()));
    assert_eq!(device_ip(None, None), None);
}

#[test]
fn saved_address_text() {
    assert_eq!(saved_address(" 192.168.1.5:5555\n"), Some("192.168.1.5:5555".to_string()));
    assert_eq!(saved_address("  \n"), None);
}

#[test]
fn manager_without_saved_address() {
    let m = WifiManager::new(None);
    assert_eq!(m.ip_input, "");
    assert!(m.log.is_empty());
    assert!(!m.busy);
    assert!(m.auto_reconnect);
    assert!(m.jobs.is_empty());
}

#[test]
fn manager_reconnects_to_saved_address() {
    let mut m = WifiManager::new(Some("192.168.1.5".to_string()));
    assert_eq!(m.ip_input, "192.168.1.5");
    assert_eq!(m.log, vec![(false, "Reintentando 192.168.1.5..".to_string())]);
    assert!(m.busy);
    let jobs = m.take_jobs();
    assert_eq!(jobs.len(), 1);
    match &jobs[0] {
        WifiJob::Connect(a) => assert_eq!(a, "192.168.1.5:5555"),
        _ => panic!("a connection job"),
    }
    assert!(m.jobs.is_empty());
}

#[test]
fn manager_jobs_in_order() {
    let mut m = WifiManager::new(None);
    m.enable_from_usb("abc".to_string());
    m.connect(" 10.0.0.2 ");
    m.pair(" 10.0.0.2:37000 ", " 123456 ");
    m.disconnect("10.0.0.2:5555".to_string());
    assert!(m.busy);
    let jobs = m.take_jobs();
    assert_eq!(jobs.len(), 4);
    assert!(matches!(&jobs[0], WifiJob::EnableFromUsb(s) if s == "abc"));
    assert!(matches!(&jobs[1], WifiJob::Connect(a) if a == "10.0.0.2:5555"));
    assert!(matches!(&jobs[2], WifiJob::Pair { address, code } if address == "10.0.0.2:37000" && code == "123456"));
    assert!(matches!(&jobs[3], WifiJob::Disconnect(s) if s == "10.0.0.2:5555"));
}

#[test]
fn manager_poll_marks_reports() {
    let mut m = WifiManager::new(None);
    m.poll(vec![
        WifiEvent::Busy(true),
        WifiEvent::Log("a".to_string()),
        WifiEvent::Success("b".to_string()),
        WifiEvent::Failure("c".to_string()),
        WifiEvent::Busy(false),
    ]);
    assert!(!m.busy);
    assert_eq!(
        m.log,
        vec![(false, "a".to_string()), (false, "✔ b".to_string()), (true, "✕ c".to_string())]
    );
}

#[test]
fn manager_log_keeps_last_forty() {
    let mut m = WifiManager::new(None);
    let events: Vec<WifiEvent> = (0..45).map(|i| WifiEvent::Log(format!("l{i}"))).collect();
    m.poll(events);
    assert_eq!(m.log.len(), LOG_LINES);
    assert_eq!(m.log[0].1, "l5");
    assert_eq!(m.log[39].1, "l44");
}
