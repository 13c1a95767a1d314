use docker_api::error::Error;
use docker_api::json::{parse_json, to_text, Json};
use docker_api::opts::VolumeCreateOpts;
use docker_api::timestamp::Timestamp;
use docker_api::volume::{
    create_request, create_response, decode_volume_info, decode_volumes_info, delete_request,
    delete_response, encode_volume_create_info, encode_volume_info, list_request, list_response,
    list_response_timestamped, VolumeCreateInfo, VolumeInfo, VolumesInfo,
};

fn sample_volume() -> VolumeInfo {
    VolumeInfo {
        created_at: "2021-04-07T12:34:56Z".to_string(),
        driver: "local".to_string(),
        labels: Some(vec![("com.github".to_string(), "docker_api".to_string())]),
        name: "test-vol".to_string(),
        mountpoint: "/var/lib/docker/volumes/test-vol/_data".to_string(),
        options: Some(vec![("type".to_string(), "tmpfs".to_string())]),
        scope: "local".to_string(),
    }
}

#[test]
fn create_scenario_returns_typed_identity() {
    let labels = vec![("com.github".to_string(), "docker_api".to_string())];
    let opts = VolumeCreateOpts::builder()
        .name("test-vol")
        .labels(&labels)
        .build();
    let (path, body) = create_request(&opts);
    assert_eq!(path, "/volumes/create");
    assert_eq!(
        body,
        "{\"Name\":\"test-vol\",\"Labels\":{\"com.github\":\"docker_api\"}}"
    );
    let result = create_response(201, "{\"Name\":\"test-vol\"}").unwrap();
    assert_eq!(
        result,
        VolumeCreateInfo {
            name: "test-vol".to_string()
        }
    );
}

#[test]
fn create_on_error_status_passes_message_through() {
    let r = create_response(500, "{\"message\":\"volume name invalid\"}");
    assert_eq!(
        r,
        Err(Error::Api {
            status: 500,
            message: "volume name invalid".to_string()
        })
    );
}

#[test]
fn create_on_unparseable_body_is_decode_error() {
    assert_eq!(create_response(201, "{{{"), Err(Error::Decode));
}

#[test]
fn create_on_wrong_shape_is_decode_error() {
    assert_eq!(create_response(201, "[\"test-vol\"]"), Err(Error::Decode));
    assert_eq!(create_response(201, "{\"Name\":17}"), Err(Error::Decode));
}

#[test]
fn delete_request_names_the_volume() {
    assert_eq!(delete_request("test-vol"), "/volumes/test-vol");
}

#[test]
fn delete_on_404_returns_api_error_with_message_intact() {
    let r = delete_response(404, "{\"message\":\"no such volume: test-vol\"}");
    assert_eq!(
        r,
        Err(Error::Api {
            status: 404,
            message: "no such volume: test-vol".to_string()
        })
    );
    match r {
        Err(e) => assert_eq!(e.api_status(), Some(404)),
        Ok(_) => panic!("a 404 must not look like success"),
    }
}

#[test]
fn delete_on_plain_error_body_keeps_the_body() {
    let r = delete_response(409, "volume is in use");
    assert_eq!(
        r,
        Err(Error::Api {
            status: 409,
            message: "volume is in use".to_string()
        })
    );
}

#[test]
fn delete_on_2xx_is_success() {
    assert_eq!(delete_response(204, ""), Ok(()));
    assert_eq!(delete_response(200, "ignored"), Ok(()));
}

#[test]
fn list_request_path() {
    assert_eq!(list_request(), "/volumes");
}

#[test]
fn list_with_absent_volumes_is_empty_not_error() {
    assert_eq!(list_response(200, "{}"), Ok(vec![]));
    assert_eq!(
        list_response(200, "{\"Volumes\":null,\"Warnings\":null}"),
        Ok(vec![])
    );
}

#[test]
fn list_with_unparseable_body_is_decode_error() {
    assert_eq!(list_response(200, "not json at all"), Err(Error::Decode));
}

#[test]
fn list_with_wrong_shape_is_decode_error() {
    assert_eq!(list_response(200, "[1,2,3]"), Err(Error::Decode));
    assert_eq!(
        list_response(200, "{\"Volumes\":\"nope\"}"),
        Err(Error::Decode)
    );
}

#[test]
fn numeric_fields_where_the_schema_wants_another_shape_are_decode_errors() {
    assert_eq!(list_response(200, "{\"Volumes\":7}"), Err(Error::Decode));
    assert_eq!(list_response(200, "{\"Warnings\":3.5}"), Err(Error::Decode));
    let body = "{\"Volumes\":[\
        {\"CreatedAt\":\"2021-04-07T12:34:56Z\",\"Driver\":\"local\",\
         \"Labels\":7,\"Name\":\"test-vol\",\"Mountpoint\":\"/mnt\",\
         \"Options\":null,\"Scope\":\"local\"}]}";
    assert_eq!(list_response(200, body), Err(Error::Decode));
}

#[test]
fn list_decodes_volumes_in_server_order() {
    let body = "{\"Volumes\":[\
        {\"CreatedAt\":\"2021-04-07T12:34:56Z\",\"Driver\":\"local\",\
         \"Labels\":{\"com.github\":\"docker_api\"},\"Name\":\"test-vol\",\
         \"Mountpoint\":\"/var/lib/docker/volumes/test-vol/_data\",\
         \"Options\":{\"type\":\"tmpfs\"},\"Scope\":\"local\"},\
        {\"CreatedAt\":\"2022-01-01T00:00:00Z\",\"Driver\":\"local\",\
         \"Labels\":null,\"Name\":\"other\",\"Mountpoint\":\"/mnt/other\",\
         \"Options\":null,\"Scope\":\"global\",\"UsageData\":{\"Size\":3}}],\
        \"Warnings\":[\"w\"]}";
    let volumes = list_response(200, body).unwrap();
    assert_eq!(volumes.len(), 2);
    assert_eq!(volumes[0], sample_volume());
    assert_eq!(volumes[1].name, "other");
    assert_eq!(volumes[1].labels, None);
    assert_eq!(volumes[1].options, None);
    assert_eq!(volumes[1].scope, "global");
}

#[test]
fn list_on_error_status_passes_message_through() {
    let r = list_response(503, "{\"message\":\"daemon busy\"}");
    assert_eq!(
        r,
        Err(Error::Api {
            status: 503,
            message: "daemon busy".to_string()
        })
    );
}

#[test]
fn unknown_fields_are_ignored_when_decoding() {
    let j = parse_json("{\"Name\":\"v\",\"Whatever\":[1,2,{\"x\":null}]}").unwrap();
    let info = docker_api::volume::decode_volume_create_info(&j).unwrap();
    assert_eq!(info.name, "v");
}

#[test]
fn volume_info_round_trips_through_json_text() {
    let v = sample_volume();
    let encoded = encode_volume_info(&v);
    let text = to_text(&encoded);
    let reparsed = parse_json(&text).unwrap();
    let decoded = decode_volume_info(&reparsed).unwrap();
    assert_eq!(decoded, v);
}

#[test]
fn volume_create_info_round_trips_through_json_text() {
    let v = VolumeCreateInfo {
        name: "test-vol".to_string(),
    };
    let text = to_text(&encode_volume_create_info(&v));
    assert_eq!(text, "{\"Name\":\"test-vol\"}");
    let decoded =
        docker_api::volume::decode_volume_create_info(&parse_json(&text).unwrap()).unwrap();
    assert_eq!(decoded, v);
}

#[test]
fn wrapper_decodes_warnings_and_absent_list() {
    let j = parse_json("{\"Warnings\":[\"w1\",\"w2\"]}").unwrap();
    let w = decode_volumes_info(&j).unwrap();
    assert_eq!(
        w,
        VolumesInfo {
            volumes: None,
            warnings: Some(vec!["w1".to_string(), "w2".to_string()])
        }
    );
}

#[test]
fn wrapper_with_bad_warning_is_no_wrapper() {
    let j = parse_json("{\"Warnings\":[\"w1\",7]}").unwrap();
    assert_eq!(decode_volumes_info(&j), None);
}

#[test]
fn to_text_serializes_nested_values() {
    let j = Json::Arr(vec![
        Json::Null,
        Json::Bool(true),
        Json::Str("hi".to_string()),
        Json::Obj(vec![]),
    ]);
    assert_eq!(to_text(&j), "[null,true,\"hi\",{}]");
}

#[test]
fn created_at_reads_as_structured_instant() {
    let v = sample_volume();
    assert_eq!(
        v.created_at_instant(),
        Some(Timestamp {
            secs: 1617798896,
            nanos: 0
        })
    );
}

#[test]
fn created_at_with_offset_and_fraction() {
    let mut v = sample_volume();
    v.created_at = "2021-04-07T14:34:56.500+02:00".to_string();
    assert_eq!(
        v.created_at_instant(),
        Some(Timestamp {
            secs: 1617798896,
            nanos: 500_000_000
        })
    );
}

#[test]
fn created_at_that_is_no_stamp_reads_as_none() {
    let mut v = sample_volume();
    v.created_at = "yesterday".to_string();
    assert_eq!(v.created_at_instant(), None);
}

#[test]
fn timestamped_reading_carries_the_instant_and_the_rest_verbatim() {
    let t = sample_volume().into_timestamped().unwrap();
    assert_eq!(
        t.created_at,
        Timestamp {
            secs: 1617798896,
            nanos: 0
        }
    );
    assert_eq!(t.name, "test-vol");
    assert_eq!(t.driver, "local");
    assert_eq!(t.scope, "local");
}

#[test]
fn timestamped_reading_of_a_bad_stamp_is_a_decode_error() {
    let mut v = sample_volume();
    v.created_at = "not a stamp".to_string();
    assert_eq!(v.into_timestamped(), Err(Error::Decode));
}

#[test]
fn timestamped_list_decodes_instants() {
    let body = "{\"Volumes\":[\
        {\"CreatedAt\":\"2021-04-07T12:34:56Z\",\"Driver\":\"local\",\
         \"Labels\":null,\"Name\":\"test-vol\",\"Mountpoint\":\"/mnt\",\
         \"Options\":null,\"Scope\":\"local\"}]}";
    let volumes = list_response_timestamped(200, body).unwrap();
    assert_eq!(volumes.len(), 1);
    assert_eq!(
        volumes[0].created_at,
        Timestamp {
            secs: 1617798896,
            nanos: 0
        }
    );
    assert_eq!(volumes[0].name, "test-vol");
}

#[test]
fn timestamped_list_with_a_bad_stamp_is_a_decode_error() {
    let body = "{\"Volumes\":[\
        {\"CreatedAt\":\"whenever\",\"Driver\":\"local\",\
         \"Labels\":null,\"Name\":\"test-vol\",\"Mountpoint\":\"/mnt\",\
         \"Options\":null,\"Scope\":\"local\"}]}";
    assert_eq!(list_response_timestamped(200, body), Err(Error::Decode));
}

#[test]
fn timestamped_list_passes_api_errors_through() {
    let r = list_response_timestamped(500, "{\"message\":\"daemon busy\"}");
    assert_eq!(
        r,
        Err(Error::Api {
            status: 500,
            message: "daemon busy".to_string()
        })
    );
    assert_eq!(list_response_timestamped(200, "{}"), Ok(vec![]));
}
