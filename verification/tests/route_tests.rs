use cloudflared_gui::route::{route_awaits, route_start, route_step, RouteAction, RouteEvent, RouteStage};

const U: &str = "6ba7b810-9dad-11d1-80b4-00c04fd430c8";

#[test]
fn creates_then_routes() {
    let (state, action) = route_start(" mc ", " mc.example.com ").unwrap();
    match action {
        RouteAction::Run(args) => assert_eq!(args, vec!["tunnel", "create", "mc"]),
        _ => panic!("expected a command"),
    }
    let ev = RouteEvent::Output(Ok(("out".to_string(), "err".to_string())));
    assert!(route_awaits(&state, &ev));
    let (state, action) = route_step(state, ev);
    match action {
        RouteAction::ExtractUuid { stdout, stderr, name } => {
            assert_eq!((stdout.as_str(), stderr.as_str(), name.as_str()), ("out", "err", "mc"))
        }
        _ => panic!("expected a UUID lookup"),
    }
    let ev = RouteEvent::Uuid(Ok(U.to_string()));
    assert!(route_awaits(&state, &ev));
    let (state, action) = route_step(state, ev);
    match action {
        RouteAction::Run(args) => {
            assert_eq!(args, vec!["tunnel", "route", "dns", "-f", U, "mc.example.com"])
        }
        _ => panic!("expected a command"),
    }
    let (state, action) = route_step(state, RouteEvent::Output(Ok((String::new(), String::new()))));
    assert_eq!(state.stage, RouteStage::Done);
    match action {
        RouteAction::Finish(r) => assert_eq!(
            r,
            Ok(format!(
                "✅ 隧道 [mc] 已创建并绑定 DNS！\n   UUID: {}\n   CNAME 已强制覆盖写入: mc.example.com",
                U
            ))
        ),
        _ => panic!("expected the end"),
    }
}

#[test]
fn failures_end_the_flow() {
    assert_eq!(route_start("  ", "d").err(), Some("隧道名不能为空".to_string()));
    assert_eq!(route_start("n", "").err(), Some("域名不能为空".to_string()));

    let (state, _) = route_start("mc", "d.example").unwrap();
    let (state, action) = route_step(state, RouteEvent::Output(Err("boom".to_string())));
    assert_eq!(state.stage, RouteStage::Done);
    assert!(!route_awaits(&state, &RouteEvent::Uuid(Ok(U.to_string()))));
    match action {
        RouteAction::Finish(r) => assert_eq!(r, Err("[阶段 1 / 创建隧道] 执行失败:\nboom".to_string())),
        _ => panic!(),
    }

    let (state, _) = route_start("mc", "d.example").unwrap();
    let (state, _) = route_step(state, RouteEvent::Output(Ok((String::new(), String::new()))));
    assert!(!route_awaits(&state, &RouteEvent::Output(Err(String::new()))));
    let (_, action) = route_step(state, RouteEvent::Uuid(Err("none".to_string())));
    match action {
        RouteAction::Finish(r) => assert_eq!(r, Err("[阶段 1 / UUID 提取] none".to_string())),
        _ => panic!(),
    }

    let (state, _) = route_start("mc", "d.example").unwrap();
    let (state, _) = route_step(state, RouteEvent::Output(Ok((String::new(), String::new()))));
    let (state, _) = route_step(state, RouteEvent::Uuid(Ok(U.to_string())));
    let (state, action) = route_step(state, RouteEvent::Output(Err("dns".to_string())));
    assert_eq!(state.stage, RouteStage::RollingBack);
    match action {
        RouteAction::Run(args) => assert_eq!(args, vec!["tunnel", "delete", "-f", U]),
        _ => panic!("expected the rollback command"),
    }
    let (state, action) = route_step(state, RouteEvent::Output(Ok((String::new(), String::new()))));
    assert_eq!(state.stage, RouteStage::Done);
    match action {
        RouteAction::Finish(r) => {
            assert_eq!(r, Err(format!("[阶段 2 / DNS 绑定] 失败 (UUID: {}):\ndns", U)))
        }
        _ => panic!(),
    }
}

#[test]
fn failed_rollback_is_reported_too() {
    let (state, _) = route_start("mc", "d.example").unwrap();
    let (state, _) = route_step(state, RouteEvent::Output(Ok((String::new(), String::new()))));
    let (state, _) = route_step(state, RouteEvent::Uuid(Ok(U.to_string())));
    let (state, _) = route_step(state, RouteEvent::Output(Err("dns".to_string())));
    let (state, action) = route_step(state, RouteEvent::Output(Err("busy".to_string())));
    assert_eq!(state.stage, RouteStage::Done);
    match action {
        RouteAction::Finish(r) => assert_eq!(
            r,
            Err(format!("[阶段 2 / DNS 绑定] 失败 (UUID: {}):\ndns\n[回滚] 删除隧道失败:\nbusy", U))
        ),
        _ => panic!(),
    }
}
