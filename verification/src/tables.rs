//! The named tables the Python module exposes: message types, error texts,
//! topics, and API ids.
use vstd::prelude::*;

verus! {
/// The data-channel message types, by name.
pub open spec fn data_channel_types_table() -> Seq<(&'static str, &'static str)> {
    seq![
        ("VALIDATION", "validation"),
        ("SUBSCRIBE", "subscribe"),
        ("UNSUBSCRIBE", "unsubscribe"),
        ("MSG", "msg"),
        ("REQUEST", "req"),
        ("RESPONSE", "res"),
        ("VID", "vid"),
        ("AUD", "aud"),
        ("ERR", "err"),
        ("HEARTBEAT", "heartbeat"),
        ("RTC_INNER_REQ", "rtc_inner_req"),
        ("RTC_REPORT", "rtc_report"),
        ("ADD_ERROR", "add_error"),
        ("RM_ERROR", "rm_error"),
        ("ERRORS", "errors"),
    ]
}

/// The data-channel message types, by name.
pub fn data_channel_types() -> (r: Vec<(&'static str, &'static str)>)
    ensures
        r@ == data_channel_types_table(),
{
    let mut r: Vec<(&'static str, &'static str)> = Vec::new();
    r.push(("VALIDATION", "validation"));
    r.push(("SUBSCRIBE", "subscribe"));
    r.push(("UNSUBSCRIBE", "unsubscribe"));
    r.push(("MSG", "msg"));
    r.push(("REQUEST", "req"));
    r.push(("RESPONSE", "res"));
    r.push(("VID", "vid"));
    r.push(("AUD", "aud"));
    r.push(("ERR", "err"));
    r.push(("HEARTBEAT", "heartbeat"));
    r.push(("RTC_INNER_REQ", "rtc_inner_req"));
    r.push(("RTC_REPORT", "rtc_report"));
    r.push(("ADD_ERROR", "add_error"));
    r.push(("RM_ERROR", "rm_error"));
    r.push(("ERRORS", "errors"));
    proof {
        assert(r@ =~= data_channel_types_table());
    }
    r
}

/// The texts of the robot's error codes and sources, by message key.
pub open spec fn app_error_messages_table() -> Seq<(&'static str, &'static str)> {
    seq![
        ("app_error_code_100_1", "DDS message timeout"),
        ("app_error_code_100_10", "Battery communication error"),
        ("app_error_code_100_2", "Distribution switch abnormal"),
        ("app_error_code_100_20", "Abnormal mote control communication"),
        ("app_error_code_100_40", "MCU communication error"),
        ("app_error_code_100_80", "Motor communication error"),
        ("app_error_code_200_1", "Rear left fan jammed"),
        ("app_error_code_200_2", "Rear right fan jammed"),
        ("app_error_code_200_4", "Front fan jammed"),
        ("app_error_code_300_1", "Overcurrent"),
        ("app_error_code_300_10", "Winding overheating"),
        ("app_error_code_300_100", "Motor communication interruption"),
        ("app_error_code_300_2", "Overvoltage"),
        ("app_error_code_300_20", "Encoder abnormal"),
        ("app_error_code_300_4", "Driver overheating"),
        ("app_error_code_300_8", "Generatrix undervoltage"),
        ("app_error_code_400_1", "Motor rotate speed abnormal"),
        ("app_error_code_400_10", "Abnormal dirt index"),
        ("app_error_code_400_2", "PointCloud data abnormal"),
        ("app_error_code_400_4", "Serial port data abnormal"),
        ("app_error_code_500_1", "UWB serial port open abnormal"),
        ("app_error_code_500_2", "Robot dog information retrieval abnormal"),
        ("app_error_code_600_4", "Overheating software protection"),
        ("app_error_code_600_8", "Low battery software protection"),
        ("app_error_source_100", "Communication firmware malfunction"),
        ("app_error_source_200", "Communication firmware malfunction"),
        ("app_error_source_300", "Motor malfunction"),
        ("app_error_source_400", "Radar malfunction"),
        ("app_error_source_500", "UWB malfunction"),
        ("app_error_source_600", "Motion Control"),
        ("app_error_wheel_300_100", "Motor Communication Interruption"),
        ("app_error_wheel_300_40", "Calibration Data Abnormality"),
        ("app_error_wheel_300_80", "Abnormal Reset"),
    ]
}

/// The texts of the robot's error codes and sources, by message key.
pub fn app_error_messages() -> (r: Vec<(&'static str, &'static str)>)
    ensures
        r@ == app_error_messages_table(),
{
    let mut r: Vec<(&'static str, &'static str)> = Vec::new();
    r.push(("app_error_code_100_1", "DDS message timeout"));
    r.push(("app_error_code_100_10", "Battery communication error"));
    r.push(("app_error_code_100_2", "Distribution switch abnormal"));
    r.push(("app_error_code_100_20", "Abnormal mote control communication"));
    r.push(("app_error_code_100_40", "MCU communication error"));
    r.push(("app_error_code_100_80", "Motor communication error"));
    r.push(("app_error_code_200_1", "Rear left fan jammed"));
    r.push(("app_error_code_200_2", "Rear right fan jammed"));
    r.push(("app_error_code_200_4", "Front fan jammed"));
    r.push(("app_error_code_300_1", "Overcurrent"));
    r.push(("app_error_code_300_10", "Winding overheating"));
    r.push(("app_error_code_300_100", "Motor communication interruption"));
    r.push(("app_error_code_300_2", "Overvoltage"));
    r.push(("app_error_code_300_20", "Encoder abnormal"));
    r.push(("app_error_code_300_4", "Driver overheating"));
    r.push(("app_error_code_300_8", "Generatrix undervoltage"));
    r.push(("app_error_code_400_1", "Motor rotate speed abnormal"));
    r.push(("app_error_code_400_10", "Abnormal dirt index"));
    r.push(("app_error_code_400_2", "PointCloud data abnormal"));
    r.push(("app_error_code_400_4", "Serial port data abnormal"));
    r.push(("app_error_code_500_1", "UWB serial port open abnormal"));
    r.push(("app_error_code_500_2", "Robot dog information retrieval abnormal"));
    r.push(("app_error_code_600_4", "Overheating software protection"));
    r.push(("app_error_code_600_8", "Low battery software protection"));
    r.push(("app_error_source_100", "Communication firmware malfunction"));
    r.push(("app_error_source_200", "Communication firmware malfunction"));
    r.push(("app_error_source_300", "Motor malfunction"));
    r.push(("app_error_source_400", "Radar malfunction"));
    r.push(("app_error_source_500", "UWB malfunction"));
    r.push(("app_error_source_600", "Motion Control"));
    r.push(("app_error_wheel_300_100", "Motor Communication Interruption"));
    r.push(("app_error_wheel_300_40", "Calibration Data Abnormality"));
    r.push(("app_error_wheel_300_80", "Abnormal Reset"));
    proof {
        assert(r@ =~= app_error_messages_table());
    }
    r
}

/// The topics of the robot's services, by name.
pub open spec fn rtc_topics_table() -> Seq<(&'static str, &'static str)> {
    seq![
        ("LOW_STATE", "rt/lf/lowstate"),
        ("MULTIPLE_STATE", "rt/multiplestate"),
        ("FRONT_PHOTO_REQ", "rt/api/videohub/request"),
        ("ULIDAR_SWITCH", "rt/utlidar/switch"),
        ("ULIDAR", "rt/utlidar/voxel_map"),
        ("ULIDAR_ARRAY", "rt/utlidar/voxel_map_compressed"),
        ("ULIDAR_STATE", "rt/utlidar/lidar_state"),
        ("ROBOTODOM", "rt/utlidar/robot_pose"),
        ("UWB_REQ", "rt/api/uwbswitch/request"),
        ("UWB_STATE", "rt/uwbstate"),
        ("LOW_CMD", "rt/lowcmd"),
        ("WIRELESS_CONTROLLER", "rt/wirelesscontroller"),
        ("SPORT_MOD", "rt/api/sport/request"),
        ("SPORT_MOD_STATE", "rt/sportmodestate"),
        ("LF_SPORT_MOD_STATE", "rt/lf/sportmodestate"),
        ("BASH_REQ", "rt/api/bashrunner/request"),
        ("SELF_TEST", "rt/selftest"),
        ("GRID_MAP", "rt/mapping/grid_map"),
        ("SERVICE_STATE", "rt/servicestate"),
        ("GPT_FEEDBACK", "rt/gptflowfeedback"),
        ("VUI", "rt/api/vui/request"),
        ("OBSTACLES_AVOID", "rt/api/obstacles_avoid/request"),
        ("SLAM_QT_COMMAND", "rt/qt_command"),
        ("SLAM_ADD_NODE", "rt/qt_add_node"),
        ("SLAM_ADD_EDGE", "rt/qt_add_edge"),
        ("SLAM_QT_NOTICE", "rt/qt_notice"),
        ("SLAM_PC_TO_IMAGE_LOCAL", "rt/pctoimage_local"),
        ("SLAM_ODOMETRY", "rt/lio_sam_ros2/mapping/odometry"),
        ("ARM_COMMAND", "rt/arm_Command"),
        ("ARM_FEEDBACK", "rt/arm_Feedback"),
        ("AUDIO_HUB_REQ", "rt/api/audiohub/request"),
        ("AUDIO_HUB_PLAY_STATE", "rt/audiohub/player/state"),
        ("GAS_SENSOR", "rt/gas_sensor"),
        ("GAS_SENSOR_REQ", "rt/api/gas_sensor/request"),
        ("LIDAR_MAPPING_CMD", "rt/uslam/client_command"),
        ("LIDAR_MAPPING_CLOUD_POINT", "rt/uslam/frontend/cloud_world_ds"),
        ("LIDAR_MAPPING_ODOM", "rt/uslam/frontend/odom"),
        ("LIDAR_MAPPING_PCD_FILE", "rt/uslam/cloud_map"),
        ("LIDAR_MAPPING_SERVER_LOG", "rt/uslam/server_log"),
        ("LIDAR_LOCALIZATION_ODOM", "rt/uslam/localization/odom"),
        ("LIDAR_NAVIGATION_GLOBAL_PATH", "rt/uslam/navigation/global_path"),
        ("LIDAR_LOCALIZATION_CLOUD_POINT", "rt/uslam/localization/cloud_world"),
        ("PROGRAMMING_ACTUATOR_CMD", "rt/programming_actuator/command"),
        ("ASSISTANT_RECORDER", "rt/api/assistant_recorder/request"),
        ("MOTION_SWITCHER", "rt/api/motion_switcher/request"),
    ]
}

/// The topics of the robot's services, by name.
pub fn rtc_topics() -> (r: Vec<(&'static str, &'static str)>)
    ensures
        r@ == rtc_topics_table(),
{
    let mut r: Vec<(&'static str, &'static str)> = Vec::new();
    r.push(("LOW_STATE", "rt/lf/lowstate"));
    r.push(("MULTIPLE_STATE", "rt/multiplestate"));
    r.push(("FRONT_PHOTO_REQ", "rt/api/videohub/request"));
    r.push(("ULIDAR_SWITCH", "rt/utlidar/switch"));
    r.push(("ULIDAR", "rt/utlidar/voxel_map"));
    r.push(("ULIDAR_ARRAY", "rt/utlidar/voxel_map_compressed"));
    r.push(("ULIDAR_STATE", "rt/utlidar/lidar_state"));
    r.push(("ROBOTODOM", "rt/utlidar/robot_pose"));
    r.push(("UWB_REQ", "rt/api/uwbswitch/request"));
    r.push(("UWB_STATE", "rt/uwbstate"));
    r.push(("LOW_CMD", "rt/lowcmd"));
    r.push(("WIRELESS_CONTROLLER", "rt/wirelesscontroller"));
    r.push(("SPORT_MOD", "rt/api/sport/request"));
    r.push(("SPORT_MOD_STATE", "rt/sportmodestate"));
    r.push(("LF_SPORT_MOD_STATE", "rt/lf/sportmodestate"));
    r.push(("BASH_REQ", "rt/api/bashrunner/request"));
    r.push(("SELF_TEST", "rt/selftest"));
    r.push(("GRID_MAP", "rt/mapping/grid_map"));
    r.push(("SERVICE_STATE", "rt/servicestate"));
    r.push(("GPT_FEEDBACK", "rt/gptflowfeedback"));
    r.push(("VUI", "rt/api/vui/request"));
    r.push(("OBSTACLES_AVOID", "rt/api/obstacles_avoid/request"));
    r.push(("SLAM_QT_COMMAND", "rt/qt_command"));
    r.push(("SLAM_ADD_NODE", "rt/qt_add_node"));
    r.push(("SLAM_ADD_EDGE", "rt/qt_add_edge"));
    r.push(("SLAM_QT_NOTICE", "rt/qt_notice"));
    r.push(("SLAM_PC_TO_IMAGE_LOCAL", "rt/pctoimage_local"));
    r.push(("SLAM_ODOMETRY", "rt/lio_sam_ros2/mapping/odometry"));
    r.push(("ARM_COMMAND", "rt/arm_Command"));
    r.push(("ARM_FEEDBACK", "rt/arm_Feedback"));
    r.push(("AUDIO_HUB_REQ", "rt/api/audiohub/request"));
    r.push(("AUDIO_HUB_PLAY_STATE", "rt/audiohub/player/state"));
    r.push(("GAS_SENSOR", "rt/gas_sensor"));
    r.push(("GAS_SENSOR_REQ", "rt/api/gas_sensor/request"));
    r.push(("LIDAR_MAPPING_CMD", "rt/uslam/client_command"));
    r.push(("LIDAR_MAPPING_CLOUD_POINT", "rt/uslam/frontend/cloud_world_ds"));
    r.push(("LIDAR_MAPPING_ODOM", "rt/uslam/frontend/odom"));
    r.push(("LIDAR_MAPPING_PCD_FILE", "rt/uslam/cloud_map"));
    r.push(("LIDAR_MAPPING_SERVER_LOG", "rt/uslam/server_log"));
    r.push(("LIDAR_LOCALIZATION_ODOM", "rt/uslam/localization/odom"));
    r.push(("LIDAR_NAVIGATION_GLOBAL_PATH", "rt/uslam/navigation/global_path"));
    r.push(("LIDAR_LOCALIZATION_CLOUD_POINT", "rt/uslam/localization/cloud_world"));
    r.push(("PROGRAMMING_ACTUATOR_CMD", "rt/programming_actuator/command"));
    r.push(("ASSISTANT_RECORDER", "rt/api/assistant_recorder/request"));
    r.push(("MOTION_SWITCHER", "rt/api/motion_switcher/request"));
    proof {
        assert(r@ =~= rtc_topics_table());
    }
    r
}

/// The API ids of the sport service's commands, by name.
pub open spec fn sport_commands_table() -> Seq<(&'static str, i64)> {
    seq![
        ("Damp", 1001),
        ("BalanceStand", 1002),
        ("StopMove", 1003),
        ("StandUp", 1004),
        ("StandDown", 1005),
        ("RecoveryStand", 1006),
        ("Euler", 1007),
        ("Move", 1008),
        ("Sit", 1009),
        ("RiseSit", 1010),
        ("SwitchGait", 1011),
        ("Trigger", 1012),
        ("BodyHeight", 1013),
        ("FootRaiseHeight", 1014),
        ("SpeedLevel", 1015),
        ("Hello", 1016),
        ("Stretch", 1017),
        ("TrajectoryFollow", 1018),
        ("ContinuousGait", 1019),
        ("Content", 1020),
        ("Wallow", 1021),
        ("Dance1", 1022),
        ("Dance2", 1023),
        ("GetBodyHeight", 1024),
        ("GetFootRaiseHeight", 1025),
        ("GetSpeedLevel", 1026),
        ("SwitchJoystick", 1027),
        ("Pose", 1028),
        ("Scrape", 1029),
        ("FrontFlip", 1030),
        ("LeftFlip", 1042),
        ("RightFlip", 1043),
        ("BackFlip", 1044),
        ("FrontJump", 1031),
        ("FrontPounce", 1032),
        ("WiggleHips", 1033),
        ("GetState", 1034),
        ("EconomicGait", 1035),
        ("LeadFollow", 1045),
        ("FingerHeart", 1036),
        ("Bound", 1304),
        ("MoonWalk", 1305),
        ("OnesidedStep", 1303),
        ("CrossStep", 1302),
        ("Handstand", 1301),
        ("StandOut", 1039),
        ("FreeWalk", 1045),
        ("Standup", 1050),
        ("CrossWalk", 1051),
    ]
}

/// The API ids of the sport service's commands, by name.
pub fn sport_commands() -> (r: Vec<(&'static str, i64)>)
    ensures
        r@ == sport_commands_table(),
{
    let mut r: Vec<(&'static str, i64)> = Vec::new();
    r.push(("Damp", 1001));
    r.push(("BalanceStand", 1002));
    r.push(("StopMove", 1003));
    r.push(("StandUp", 1004));
    r.push(("StandDown", 1005));
    r.push(("RecoveryStand", 1006));
    r.push(("Euler", 1007));
    r.push(("Move", 1008));
    r.push(("Sit", 1009));
    r.push(("RiseSit", 1010));
    r.push(("SwitchGait", 1011));
    r.push(("Trigger", 1012));
    r.push(("BodyHeight", 1013));
    r.push(("FootRaiseHeight", 1014));
    r.push(("SpeedLevel", 1015));
    r.push(("Hello", 1016));
    r.push(("Stretch", 1017));
    r.push(("TrajectoryFollow", 1018));
    r.push(("ContinuousGait", 1019));
    r.push(("Content", 1020));
    r.push(("Wallow", 1021));
    r.push(("Dance1", 1022));
    r.push(("Dance2", 1023));
    r.push(("GetBodyHeight", 1024));
    r.push(("GetFootRaiseHeight", 1025));
    r.push(("GetSpeedLevel", 1026));
    r.push(("SwitchJoystick", 1027));
    r.push(("Pose", 1028));
    r.push(("Scrape", 1029));
    r.push(("FrontFlip", 1030));
    r.push(("LeftFlip", 1042));
    r.push(("RightFlip", 1043));
    r.push(("BackFlip", 1044));
    r.push(("FrontJump", 1031));
    r.push(("FrontPounce", 1032));
    r.push(("WiggleHips", 1033));
    r.push(("GetState", 1034));
    r.push(("EconomicGait", 1035));
    r.push(("LeadFollow", 1045));
    r.push(("FingerHeart", 1036));
    r.push(("Bound", 1304));
    r.push(("MoonWalk", 1305));
    r.push(("OnesidedStep", 1303));
    r.push(("CrossStep", 1302));
    r.push(("Handstand", 1301));
    r.push(("StandOut", 1039));
    r.push(("FreeWalk", 1045));
    r.push(("Standup", 1050));
    r.push(("CrossWalk", 1051));
    proof {
        assert(r@ =~= sport_commands_table());
    }
    r
}

/// The API ids of the audio hub's requests, by name.
pub open spec fn audio_api_ids_table() -> Seq<(&'static str, i64)> {
    seq![
        ("GET_AUDIO_LIST", 1001),
        ("SELECT_START_PLAY", 1002),
        ("PAUSE", 1003),
        ("UNSUSPEND", 1004),
        ("SELECT_PREV_START_PLAY", 1005),
        ("SELECT_NEXT_START_PLAY", 1006),
        ("SET_PLAY_MODE", 1007),
        ("SELECT_RENAME", 1008),
        ("SELECT_DELETE", 1009),
        ("GET_PLAY_MODE", 1010),
        ("UPLOAD_AUDIO_FILE", 2001),
        ("PLAY_START_OBSTACLE_AVOIDANCE", 3001),
        ("PLAY_EXIT_OBSTACLE_AVOIDANCE", 3002),
        ("PLAY_START_COMPANION_MODE", 3003),
        ("PLAY_EXIT_COMPANION_MODE", 3004),
        ("ENTER_MEGAPHONE", 4001),
        ("EXIT_MEGAPHONE", 4002),
        ("UPLOAD_MEGAPHONE", 4003),
        ("INTERNAL_LONG_CORPUS_SELECT_TO_PLAY", 5001),
        ("INTERNAL_LONG_CORPUS_PLAYBACK_COMPLETED", 5002),
        ("INTERNAL_LONG_CORPUS_STOP_PLAYING", 5003),
    ]
}

/// The API ids of the audio hub's requests, by name.
pub fn audio_api_ids() -> (r: Vec<(&'static str, i64)>)
    ensures
        r@ == audio_api_ids_table(),
{
    let mut r: Vec<(&'static str, i64)> = Vec::new();
    r.push(("GET_AUDIO_LIST", 1001));
    r.push(("SELECT_START_PLAY", 1002));
    r.push(("PAUSE", 1003));
    r.push(("UNSUSPEND", 1004));
    r.push(("SELECT_PREV_START_PLAY", 1005));
    r.push(("SELECT_NEXT_START_PLAY", 1006));
    r.push(("SET_PLAY_MODE", 1007));
    r.push(("SELECT_RENAME", 1008));
    r.push(("SELECT_DELETE", 1009));
    r.push(("GET_PLAY_MODE", 1010));
    r.push(("UPLOAD_AUDIO_FILE", 2001));
    r.push(("PLAY_START_OBSTACLE_AVOIDANCE", 3001));
    r.push(("PLAY_EXIT_OBSTACLE_AVOIDANCE", 3002));
    r.push(("PLAY_START_COMPANION_MODE", 3003));
    r.push(("PLAY_EXIT_COMPANION_MODE", 3004));
    r.push(("ENTER_MEGAPHONE", 4001));
    r.push(("EXIT_MEGAPHONE", 4002));
    r.push(("UPLOAD_MEGAPHONE", 4003));
    r.push(("INTERNAL_LONG_CORPUS_SELECT_TO_PLAY", 5001));
    r.push(("INTERNAL_LONG_CORPUS_PLAYBACK_COMPLETED", 5002));
    r.push(("INTERNAL_LONG_CORPUS_STOP_PLAYING", 5003));
    proof {
        assert(r@ =~= audio_api_ids_table());
    }
    r
}

} // verus!
