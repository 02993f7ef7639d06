use zabbix::{
    RequestData, ZabbixDiscovery, ZabbixHost, ZabbixMetric, ZabbixRequest, HISTORY_DATA,
};

#[test]
fn test_zabbix_request() {
    let req = ZabbixRequest::new("REQUEST", "HOST", RequestData::Null);

    assert!(req.str().contains("\"request\":\"REQUEST\""));
    assert!(req.str().contains("\"host\":\"HOST\""));
    assert_eq!("REQUEST", req.request);
    assert_eq!("HOST", req.host);

    let hosts = vec![
        ZabbixHost::new("host1".to_string()),
        ZabbixHost::new("host2".to_string()),
    ];
    let req1 = ZabbixRequest::new("REQUEST", "HOST", RequestData::Hosts(hosts));

    assert!(req1.data.is_array());
    assert!(req1.str().contains("\"host\":\"host1\""));
}

#[test]
fn test_zabbix_discovery() {
    let data = vec!["A".to_string(), "B".to_string()];
    let req = ZabbixDiscovery::new("{#APPNO}", data);

    assert!(req.str().contains("\"{#APPNO}\":\"A\""));
    assert!(req.str().contains("\"{#APPNO}\":\"B\""));
    assert_eq!(2, req.data.len());
}

#[test]
fn test_request_envelope_shape() {
    let req = ZabbixRequest::new(HISTORY_DATA, "proxy-1", RequestData::Null);
    let text = req.str();
    assert!(text.starts_with("{\"request\":\"history data\",\"host\":\"proxy-1\",\"clock\":"));
    assert!(text.ends_with(",\"ns\":0,\"data\":null}"));
}

#[test]
fn test_metrics_payload_serialization() {
    let mut m = ZabbixMetric::new("web", "cpu", "0.5");
    m.clock = 1547466205;
    let req = RequestData::Metrics(vec![m]);
    let env = ZabbixRequest::new("REQUEST", "HOST", req);
    assert!(env.str().contains(
        "\"data\":[{\"host\":\"web\",\"key\":\"cpu\",\"value\":\"0.5\",\"clock\":1547466205}]"
    ));
}

#[test]
fn test_hosts_payload_serialization() {
    let mut h = ZabbixHost::new("node-1".to_string());
    h.clock = -2;
    let env = ZabbixRequest::new("REQUEST", "HOST", RequestData::Hosts(vec![h]));
    assert!(env.str().contains(
        "\"data\":[{\"host\":\"node-1\",\"host_metadata\":\"DBMP\",\"ip\":\"127.0.0.1\",\"port\":10050,\"clock\":-2}]"
    ));
}

#[test]
fn test_string_escaping() {
    let m = ZabbixMetric::new("a\"b", "k\\ey", "line1\nline2\ttab\u{1}end");
    let env = ZabbixRequest::new("REQUEST", "HOST", RequestData::Metrics(vec![m]));
    let text = env.str();
    assert!(text.contains("\"host\":\"a\\\"b\""));
    assert!(text.contains("\"key\":\"k\\\\ey\""));
    assert!(text.contains("\"value\":\"line1\\nline2\\ttab\\u0001end\""));
}

#[test]
fn test_empty_metric_list() {
    let env = ZabbixRequest::new("REQUEST", "HOST", RequestData::Metrics(vec![]));
    assert!(env.str().contains("\"data\":[]"));
}
